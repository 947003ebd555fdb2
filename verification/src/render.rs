use vstd::prelude::*;
use crate::frame::{Frame, Grid, grid_of};

verus! {

/// One positioned write: move the cursor to the screen position `(col, row)`,
/// counted from one, and print `glyph` there.
#[derive(Clone, Copy, Debug, PartialEq, Eq)]
pub struct CellWrite {
    pub col: usize,
    pub row: usize,
    pub glyph: &'static str,
}

/// What a positioned write says: the screen position, counted from one, and
/// the characters printed there.
pub struct Placed {
    pub col: int,
    pub row: int,
    pub glyph: Seq<char>,
}

impl View for CellWrite {
    type V = Placed;

    open spec fn view(&self) -> Placed {
        Placed { col: self.col as int, row: self.row as int, glyph: self.glyph@ }
    }
}

/// The writes of a vector, each by its view.
pub open spec fn placed(writes: Seq<CellWrite>) -> Seq<Placed> {
    writes.map_values(|w: CellWrite| w@)
}

/// Two grids have the same number of columns, and column by column the same
/// number of rows.
pub open spec fn same_shape(a: Grid, b: Grid) -> bool {
    &&& a.len() == b.len()
    &&& forall|c: int| 0 <= c < a.len() ==> (#[trigger] a[c]).len() == (#[trigger] b[c]).len()
}

/// The cell at column `c`, row `r` has to be written: always in a full
/// redraw, else when its glyph is not the one shown before.
pub open spec fn must_write(prev: Grid, curr: Grid, force: bool, c: int, r: int) -> bool {
    force || prev[c][r] != curr[c][r]
}

/// The write that shows the cell at column `c`, row `r` of `curr`.
pub open spec fn write_of(curr: Grid, c: int, r: int) -> Placed {
    Placed { col: c + 1, row: r + 1, glyph: curr[c][r] }
}

/// The writes for the first `n` rows of column `c`, from the top down.
pub open spec fn column_writes(prev: Grid, curr: Grid, force: bool, c: int, n: nat) -> Seq<Placed>
    decreases n,
{
    if n == 0 {
        Seq::empty()
    } else {
        let above = column_writes(prev, curr, force, c, (n - 1) as nat);
        if must_write(prev, curr, force, c, n - 1) {
            above.push(write_of(curr, c, n - 1))
        } else {
            above
        }
    }
}

/// The writes for the first `n` columns, column after column from the left.
pub open spec fn columns_writes(prev: Grid, curr: Grid, force: bool, n: nat) -> Seq<Placed>
    decreases n,
{
    if n == 0 {
        Seq::empty()
    } else {
        columns_writes(prev, curr, force, (n - 1) as nat) + column_writes(
            prev,
            curr,
            force,
            n - 1,
            curr[n - 1].len(),
        )
    }
}

/// The writes that turn a screen showing `prev` into one showing `curr`.
pub open spec fn diff_writes(prev: Grid, curr: Grid, force: bool) -> Seq<Placed> {
    columns_writes(prev, curr, force, curr.len())
}

/// Compares two glyphs with `str`'s `==`, which holds exactly when the two
/// strings are made of the same characters.
#[verifier::external_body]
fn same_glyph(a: &str, b: &str) -> (same: bool)
    ensures
        same == (a@ == b@),
{
    a == b
}

/// Computes the positioned writes that bring a screen showing `previous` up
/// to `current`: one for each cell whose glyph changed, or one for every
/// cell when `force_full_redraw` is set, in column-major order.
pub fn render(previous: &Frame, current: &Frame, force_full_redraw: bool) -> (writes: Vec<CellWrite>)
    requires
        same_shape(grid_of(*previous), grid_of(*current)),
    ensures
        placed(writes@) == diff_writes(grid_of(*previous), grid_of(*current), force_full_redraw),
{
    let ghost prev = grid_of(*previous);
    let ghost curr = grid_of(*current);
    let mut writes: Vec<CellWrite> = Vec::new();
    let mut c: usize = 0;
    while c < current.len()
        invariant
            c <= current.len(),
            prev == grid_of(*previous),
            curr == grid_of(*current),
            same_shape(prev, curr),
            placed(writes@) =~= columns_writes(prev, curr, force_full_redraw, c as nat),
        decreases current.len() - c,
    {
        let ghost before = placed(writes@);
        let mut r: usize = 0;
        assert(prev[c as int].len() == curr[c as int].len());
        while r < current[c].len()
            invariant
                c < current.len(),
                r <= current[c as int].len(),
                prev == grid_of(*previous),
                curr == grid_of(*current),
                previous.len() == current.len(),
                previous[c as int].len() == current[c as int].len(),
                placed(writes@) =~= before + column_writes(prev, curr, force_full_redraw, c as int, r as nat),
            decreases current[c as int].len() - r,
        {
            let glyph: &'static str = current[c][r];
            let ghost earlier = placed(writes@);
            let ghost above = column_writes(prev, curr, force_full_redraw, c as int, r as nat);
            assert(curr[c as int][r as int] == glyph@);
            assert(prev[c as int][r as int] == previous[c as int][r as int]@);
            if force_full_redraw || !same_glyph(previous[c][r], glyph) {
                let write = CellWrite { col: c + 1, row: r + 1, glyph };
                writes.push(write);
                assert(write@ == write_of(curr, c as int, r as int));
                assert(placed(writes@) =~= earlier.push(write@));
                assert(earlier.push(write@) =~= before + above.push(write@));
            }
            r += 1;
        }
        c += 1;
    }
    writes
}

} // verus!
