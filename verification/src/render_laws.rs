use vstd::prelude::*;
use vstd::set_lib::lemma_set_disjoint_lens;
use crate::frame::{Grid, is_grid, with_cell};
use crate::render::{Placed, same_shape, must_write, write_of, column_writes, columns_writes, diff_writes};

verus! {

/// The cell that a write paints, as column and row counted from zero.
pub open spec fn target(w: Placed) -> (int, int) {
    (w.col - 1, w.row - 1)
}

/// The screen after one write.
pub open spec fn paint(screen: Grid, w: Placed) -> Grid {
    with_cell(screen, target(w).0, target(w).1, w.glyph)
}

/// The screen after the writes of `writes`, first to last.
pub open spec fn paint_all(screen: Grid, writes: Seq<Placed>) -> Grid
    decreases writes.len(),
{
    if writes.len() == 0 {
        screen
    } else {
        paint(paint_all(screen, writes.drop_last()), writes.last())
    }
}

/// The cells of `curr` whose glyph is not the one that `prev` has there.
pub open spec fn changed_cells(prev: Grid, curr: Grid) -> Set<(int, int)> {
    Set::new(
        |p: (int, int)|
            0 <= p.0 < curr.len() && 0 <= p.1 < curr[p.0].len() && prev[p.0][p.1] != curr[p.0][p.1],
    )
}

/// The changed cells among the first `n` rows of column `c`.
spec fn changed_in_column(prev: Grid, curr: Grid, c: int, n: nat) -> Set<(int, int)> {
    Set::new(|p: (int, int)| p.0 == c && 0 <= p.1 < n && prev[c][p.1] != curr[c][p.1])
}

/// The changed cells among the first `n` columns.
spec fn changed_in_columns(prev: Grid, curr: Grid, n: nat) -> Set<(int, int)> {
    Set::new(
        |p: (int, int)|
            0 <= p.0 < n && 0 <= p.1 < curr[p.0].len() && prev[p.0][p.1] != curr[p.0][p.1],
    )
}

/// A full redraw of the first `n` rows of a column writes each of them.
proof fn lemma_column_full(prev: Grid, curr: Grid, c: int, n: nat)
    ensures
        column_writes(prev, curr, true, c, n).len() == n,
    decreases n,
{
    if n > 0 {
        lemma_column_full(prev, curr, c, (n - 1) as nat);
    }
}

/// A column writes at most one glyph per row.
proof fn lemma_column_bounded(prev: Grid, curr: Grid, force: bool, c: int, n: nat)
    ensures
        column_writes(prev, curr, force, c, n).len() <= n,
    decreases n,
{
    if n > 0 {
        lemma_column_bounded(prev, curr, force, c, (n - 1) as nat);
    }
}

/// A column compared with itself needs no write.
proof fn lemma_column_unchanged(g: Grid, c: int, n: nat)
    ensures
        column_writes(g, g, false, c, n) == Seq::<Placed>::empty(),
    decreases n,
{
    if n > 0 {
        lemma_column_unchanged(g, c, (n - 1) as nat);
    }
}

/// Each write of a column paints a cell of that column that has to be
/// written, with the glyph of `curr`, and the rows only go down.
proof fn lemma_column_sound(prev: Grid, curr: Grid, force: bool, c: int, n: nat)
    ensures
        forall|i: int|
            0 <= i < column_writes(prev, curr, force, c, n).len() ==> {
                let w = #[trigger] column_writes(prev, curr, force, c, n)[i];
                &&& target(w).0 == c
                &&& 0 <= target(w).1 < n
                &&& must_write(prev, curr, force, c, target(w).1)
                &&& w == write_of(curr, c, target(w).1)
            },
        forall|i: int, j: int|
            0 <= i < j < column_writes(prev, curr, force, c, n).len() ==> target(
                #[trigger] column_writes(prev, curr, force, c, n)[i],
            ).1 < target(#[trigger] column_writes(prev, curr, force, c, n)[j]).1,
    decreases n,
{
    if n > 0 {
        let m = (n - 1) as nat;
        lemma_column_sound(prev, curr, force, c, m);
        let above = column_writes(prev, curr, force, c, m);
        let all = column_writes(prev, curr, force, c, n);
        assert forall|i: int| 0 <= i < all.len() implies {
            let w = #[trigger] all[i];
            &&& target(w).0 == c
            &&& 0 <= target(w).1 < n
            &&& must_write(prev, curr, force, c, target(w).1)
            &&& w == write_of(curr, c, target(w).1)
        } by {
            if i < above.len() {
                assert(all[i] == above[i]);
            }
        }
        assert forall|i: int, j: int| 0 <= i < j < all.len() implies target(#[trigger] all[i]).1
            < target(#[trigger] all[j]).1 by {
            assert(all[i] == above[i]);
            if j < above.len() {
                assert(all[j] == above[j]);
            }
        }
    }
}

/// Without a full redraw a column gets one write for each changed cell.
proof fn lemma_column_count(prev: Grid, curr: Grid, c: int, n: nat)
    ensures
        changed_in_column(prev, curr, c, n).finite(),
        column_writes(prev, curr, false, c, n).len() == changed_in_column(prev, curr, c, n).len(),
    decreases n,
{
    if n == 0 {
        assert(changed_in_column(prev, curr, c, n) =~= Set::empty());
    } else {
        let m = (n - 1) as nat;
        lemma_column_count(prev, curr, c, m);
        let before = changed_in_column(prev, curr, c, m);
        if must_write(prev, curr, false, c, n - 1) {
            assert(changed_in_column(prev, curr, c, n) =~= before.insert((c, n - 1)));
            assert(!before.contains((c, n - 1)));
        } else {
            assert(changed_in_column(prev, curr, c, n) =~= before);
        }
    }
}

/// Without a full redraw the first `n` columns get one write for each
/// changed cell in them.
proof fn lemma_columns_count(prev: Grid, curr: Grid, n: nat)
    ensures
        changed_in_columns(prev, curr, n).finite(),
        columns_writes(prev, curr, false, n).len() == changed_in_columns(prev, curr, n).len(),
    decreases n,
{
    if n == 0 {
        assert(changed_in_columns(prev, curr, n) =~= Set::empty());
    } else {
        let m = (n - 1) as nat;
        lemma_columns_count(prev, curr, m);
        lemma_column_count(prev, curr, m as int, curr[m as int].len());
        let left = changed_in_columns(prev, curr, m);
        let last = changed_in_column(prev, curr, m as int, curr[m as int].len());
        assert(changed_in_columns(prev, curr, n) =~= left + last);
        assert(left.disjoint(last));
        lemma_set_disjoint_lens(left, last);
    }
}

/// Each write of the first `n` columns paints a cell that has to be written,
/// with the glyph of `curr`, and no cell is written twice.
proof fn lemma_columns_sound(prev: Grid, curr: Grid, force: bool, n: nat)
    ensures
        forall|i: int|
            0 <= i < columns_writes(prev, curr, force, n).len() ==> {
                let w = #[trigger] columns_writes(prev, curr, force, n)[i];
                &&& 0 <= target(w).0 < n
                &&& 0 <= target(w).1 < curr[target(w).0].len()
                &&& must_write(prev, curr, force, target(w).0, target(w).1)
                &&& w == write_of(curr, target(w).0, target(w).1)
            },
        forall|i: int, j: int|
            0 <= i < j < columns_writes(prev, curr, force, n).len() ==> target(
                #[trigger] columns_writes(prev, curr, force, n)[i],
            ) != target(#[trigger] columns_writes(prev, curr, force, n)[j]),
    decreases n,
{
    if n > 0 {
        let m = (n - 1) as nat;
        lemma_columns_sound(prev, curr, force, m);
        lemma_column_sound(prev, curr, force, m as int, curr[m as int].len());
        let left = columns_writes(prev, curr, force, m);
        let last = column_writes(prev, curr, force, m as int, curr[m as int].len());
        let all = columns_writes(prev, curr, force, n);
        assert forall|i: int| 0 <= i < all.len() implies {
            let w = #[trigger] all[i];
            &&& 0 <= target(w).0 < n
            &&& 0 <= target(w).1 < curr[target(w).0].len()
            &&& must_write(prev, curr, force, target(w).0, target(w).1)
            &&& w == write_of(curr, target(w).0, target(w).1)
        } by {
            if i < left.len() {
                assert(all[i] == left[i]);
            } else {
                assert(all[i] == last[i - left.len()]);
            }
        }
        assert forall|i: int, j: int| 0 <= i < j < all.len() implies target(#[trigger] all[i])
            != target(#[trigger] all[j]) by {
            if i < left.len() {
                assert(all[i] == left[i]);
            } else {
                assert(all[i] == last[i - left.len()]);
            }
            if j < left.len() {
                assert(all[j] == left[j]);
            } else {
                assert(all[j] == last[j - left.len()]);
            }
        }
    }
}

/// Each cell among the first `n` rows of column `c` that has to be written
/// is written.
proof fn lemma_column_complete(prev: Grid, curr: Grid, force: bool, c: int, n: nat, r: int)
    requires
        0 <= r < n,
        must_write(prev, curr, force, c, r),
    ensures
        column_writes(prev, curr, force, c, n).contains(write_of(curr, c, r)),
    decreases n,
{
    let m = (n - 1) as nat;
    let above = column_writes(prev, curr, force, c, m);
    if r == n - 1 {
        assert(above.push(write_of(curr, c, r)).last() == write_of(curr, c, r));
    } else {
        lemma_column_complete(prev, curr, force, c, m, r);
        let i = choose|i: int| 0 <= i < above.len() && above[i] == write_of(curr, c, r);
        assert(column_writes(prev, curr, force, c, n)[i] == write_of(curr, c, r));
    }
}

/// Each cell among the first `n` columns that has to be written is written.
proof fn lemma_columns_complete(prev: Grid, curr: Grid, force: bool, n: nat, c: int, r: int)
    requires
        0 <= c < n,
        0 <= r < curr[c].len(),
        must_write(prev, curr, force, c, r),
    ensures
        columns_writes(prev, curr, force, n).contains(write_of(curr, c, r)),
    decreases n,
{
    let m = (n - 1) as nat;
    let left = columns_writes(prev, curr, force, m);
    let last = column_writes(prev, curr, force, m as int, curr[m as int].len());
    if c == n - 1 {
        lemma_column_complete(prev, curr, force, c, curr[c].len(), r);
        let i = choose|i: int| 0 <= i < last.len() && last[i] == write_of(curr, c, r);
        assert((left + last)[left.len() + i] == write_of(curr, c, r));
    } else {
        lemma_columns_complete(prev, curr, force, m, c, r);
        let i = choose|i: int| 0 <= i < left.len() && left[i] == write_of(curr, c, r);
        assert((left + last)[i] == write_of(curr, c, r));
    }
}

/// A full redraw of the first `n` columns of a grid writes every cell of them.
proof fn lemma_columns_full(prev: Grid, curr: Grid, n: nat, rows: nat)
    requires
        n <= curr.len(),
        forall|c: int| 0 <= c < curr.len() ==> (#[trigger] curr[c]).len() == rows,
    ensures
        columns_writes(prev, curr, true, n).len() == n * rows,
    decreases n,
{
    if n > 0 {
        let m = (n - 1) as nat;
        lemma_columns_full(prev, curr, m, rows);
        lemma_column_full(prev, curr, m as int, curr[m as int].len());
        let left = columns_writes(prev, curr, true, m);
        let last = column_writes(prev, curr, true, m as int, curr[m as int].len());
        assert(columns_writes(prev, curr, true, n) == left + last);
        assert((left + last).len() == m * rows + rows);
        assert(m * rows + rows == n * rows) by (nonlinear_arith)
            requires
                m + 1 == n,
        ;
    } else {
        assert(n * rows == 0) by (nonlinear_arith)
            requires
                n == 0,
        ;
    }
}

/// The first `n` columns of a grid get at most one write per cell.
proof fn lemma_columns_bounded(prev: Grid, curr: Grid, force: bool, n: nat, rows: nat)
    requires
        n <= curr.len(),
        forall|c: int| 0 <= c < curr.len() ==> (#[trigger] curr[c]).len() == rows,
    ensures
        columns_writes(prev, curr, force, n).len() <= n * rows,
    decreases n,
{
    if n > 0 {
        let m = (n - 1) as nat;
        lemma_columns_bounded(prev, curr, force, m, rows);
        lemma_column_bounded(prev, curr, force, m as int, curr[m as int].len());
        let left = columns_writes(prev, curr, force, m);
        let last = column_writes(prev, curr, force, m as int, curr[m as int].len());
        assert(columns_writes(prev, curr, force, n) == left + last);
        assert((left + last).len() <= m * rows + rows);
        assert(m * rows + rows == n * rows) by (nonlinear_arith)
            requires
                m + 1 == n,
        ;
    } else {
        assert(n * rows == 0) by (nonlinear_arith)
            requires
                n == 0,
        ;
    }
}

/// Grids compared with themselves need no write in their first `n` columns.
proof fn lemma_columns_unchanged(g: Grid, n: nat)
    ensures
        columns_writes(g, g, false, n) == Seq::<Placed>::empty(),
    decreases n,
{
    if n > 0 {
        let m = (n - 1) as nat;
        lemma_columns_unchanged(g, m);
        lemma_column_unchanged(g, m as int, g[m as int].len());
        assert(Seq::<Placed>::empty() + Seq::<Placed>::empty() =~= Seq::<Placed>::empty());
    }
}

/// Painting one sequence of writes after another is painting the two in a row.
proof fn lemma_paint_all_concat(screen: Grid, a: Seq<Placed>, b: Seq<Placed>)
    ensures
        paint_all(screen, a + b) == paint_all(paint_all(screen, a), b),
    decreases b.len(),
{
    if b.len() == 0 {
        assert(a + b =~= a);
    } else {
        lemma_paint_all_concat(screen, a, b.drop_last());
        assert((a + b).drop_last() =~= a + b.drop_last());
        assert((a + b).last() == b.last());
    }
}

/// The writes for the first `n` rows of column `c` change, on a screen of
/// the shape of `curr`, those cells that have to be written, to their glyph
/// in `curr`, and no other cell.
proof fn lemma_column_painted(screen: Grid, prev: Grid, curr: Grid, force: bool, c: int, n: nat)
    requires
        same_shape(screen, curr),
        0 <= c < curr.len(),
        n <= curr[c].len(),
    ensures
        ({
            let after = paint_all(screen, column_writes(prev, curr, force, c, n));
            &&& same_shape(after, curr)
            &&& forall|i: int| 0 <= i < curr.len() && i != c ==> #[trigger] after[i] == screen[i]
            &&& forall|r: int|
                0 <= r < curr[c].len() ==> #[trigger] after[c][r] == if r < n && must_write(
                    prev,
                    curr,
                    force,
                    c,
                    r,
                ) {
                    curr[c][r]
                } else {
                    screen[c][r]
                }
        }),
    decreases n,
{
    if n > 0 {
        let m = (n - 1) as nat;
        lemma_column_painted(screen, prev, curr, force, c, m);
        let above = column_writes(prev, curr, force, c, m);
        if must_write(prev, curr, force, c, n - 1) {
            let w = write_of(curr, c, n - 1);
            assert(above.push(w).drop_last() =~= above);
            assert(above.push(w).last() == w);
        }
    }
}

/// The writes for the first `n` columns change, on a screen of the shape of
/// `curr`, those cells that have to be written, to their glyph in `curr`,
/// and no other cell.
proof fn lemma_columns_painted(screen: Grid, prev: Grid, curr: Grid, force: bool, n: nat)
    requires
        same_shape(screen, curr),
        n <= curr.len(),
    ensures
        ({
            let after = paint_all(screen, columns_writes(prev, curr, force, n));
            &&& same_shape(after, curr)
            &&& forall|c: int, r: int|
                0 <= c < curr.len() && 0 <= r < curr[c].len() ==> #[trigger] after[c][r] == if c < n
                    && must_write(prev, curr, force, c, r) {
                    curr[c][r]
                } else {
                    screen[c][r]
                }
        }),
    decreases n,
{
    if n > 0 {
        let m = (n - 1) as nat;
        lemma_columns_painted(screen, prev, curr, force, m);
        let left = columns_writes(prev, curr, force, m);
        let last = column_writes(prev, curr, force, m as int, curr[m as int].len());
        let middle = paint_all(screen, left);
        lemma_paint_all_concat(screen, left, last);
        lemma_column_painted(middle, prev, curr, force, m as int, curr[m as int].len());
        let after = paint_all(middle, last);
        assert forall|c: int, r: int| 0 <= c < curr.len() && 0 <= r < curr[c].len() implies #[trigger] after[c][r]
            == if c < n && must_write(prev, curr, force, c, r) {
            curr[c][r]
        } else {
            screen[c][r]
        } by {
            if c != m {
                assert(after[c] == middle[c]);
            }
        }
    }
}

/// A full redraw writes every cell once: for a grid of `cols` by `rows`
/// cells it is made of exactly `cols * rows` writes, whatever was shown
/// before.
pub proof fn lemma_full_redraw_count(prev: Grid, curr: Grid, cols: nat, rows: nat)
    requires
        is_grid(curr, cols, rows),
    ensures
        diff_writes(prev, curr, true).len() == cols * rows,
{
    lemma_columns_full(prev, curr, cols, rows);
}

/// No rendering makes more writes than the grid has cells.
pub proof fn lemma_writes_bounded(prev: Grid, curr: Grid, force: bool, cols: nat, rows: nat)
    requires
        is_grid(curr, cols, rows),
    ensures
        diff_writes(prev, curr, force).len() <= cols * rows,
{
    lemma_columns_bounded(prev, curr, force, cols, rows);
}

/// A grid rendered against itself without a full redraw makes no write.
pub proof fn lemma_same_frame_no_writes(g: Grid)
    ensures
        diff_writes(g, g, false) == Seq::<Placed>::empty(),
{
    lemma_columns_unchanged(g, g.len());
}

/// Without a full redraw the writes are as many as the cells whose glyph
/// changed; each paints one of those cells with its glyph in `curr`; no cell
/// is painted twice; and every changed cell is painted.
pub proof fn lemma_diff_minimal(prev: Grid, curr: Grid)
    requires
        same_shape(prev, curr),
    ensures
        changed_cells(prev, curr).finite(),
        diff_writes(prev, curr, false).len() == changed_cells(prev, curr).len(),
        forall|i: int|
            0 <= i < diff_writes(prev, curr, false).len() ==> {
                let w = #[trigger] diff_writes(prev, curr, false)[i];
                &&& changed_cells(prev, curr).contains(target(w))
                &&& w == write_of(curr, target(w).0, target(w).1)
            },
        forall|i: int, j: int|
            0 <= i < j < diff_writes(prev, curr, false).len() ==> target(
                #[trigger] diff_writes(prev, curr, false)[i],
            ) != target(#[trigger] diff_writes(prev, curr, false)[j]),
        forall|c: int, r: int|
            changed_cells(prev, curr).contains((c, r)) ==> diff_writes(prev, curr, false).contains(
                #[trigger] write_of(curr, c, r),
            ),
{
    lemma_columns_count(prev, curr, curr.len());
    assert(changed_in_columns(prev, curr, curr.len()) =~= changed_cells(prev, curr));
    lemma_columns_sound(prev, curr, false, curr.len());
    assert forall|c: int, r: int| changed_cells(prev, curr).contains((c, r)) implies diff_writes(
        prev,
        curr,
        false,
    ).contains(#[trigger] write_of(curr, c, r)) by {
        lemma_columns_complete(prev, curr, false, curr.len(), c, r);
    }
}

/// The writes do their work: painted in order on a screen that shows `prev`,
/// they leave a screen that shows `curr`, with or without a full redraw.
pub proof fn lemma_writes_show_current(prev: Grid, curr: Grid, force: bool)
    requires
        same_shape(prev, curr),
    ensures
        paint_all(prev, diff_writes(prev, curr, force)) == curr,
{
    lemma_columns_painted(prev, prev, curr, force, curr.len());
    let after = paint_all(prev, diff_writes(prev, curr, force));
    assert forall|c: int| 0 <= c < curr.len() implies #[trigger] after[c] == curr[c] by {
        assert forall|r: int| 0 <= r < curr[c].len() implies after[c][r] == curr[c][r] by {
        }
        assert(after[c] =~= curr[c]);
    }
    assert(after =~= curr);
}

} // verus!
