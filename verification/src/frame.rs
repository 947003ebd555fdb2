use vstd::prelude::*;
use crate::{NUM_COLS, NUM_ROWS};

verus! {

/// One snapshot of the display: a vector of columns, each a vector of glyphs.
/// The cell at column `c` and row `r` is `frame[c][r]`.
pub type Frame = Vec<Vec<&'static str>>;

/// What a frame shows: for each column, for each row, the characters of the glyph.
pub type Grid = Seq<Seq<Seq<char>>>;

/// The glyph of an empty cell: a single space.
pub open spec fn blank() -> Seq<char> {
    " "@
}

/// The glyphs of `frame`, cell by cell.
pub open spec fn grid_of(frame: Frame) -> Grid {
    Seq::new(frame.len() as nat, |c: int| Seq::new(frame[c].len() as nat, |r: int| frame[c][r]@))
}

/// `g` has exactly `cols` columns of exactly `rows` cells each.
pub open spec fn is_grid(g: Grid, cols: nat, rows: nat) -> bool {
    &&& g.len() == cols
    &&& forall|c: int| 0 <= c < g.len() ==> (#[trigger] g[c]).len() == rows
}

/// The grid of `cols` by `rows` cells that are all empty.
pub open spec fn blank_grid(cols: nat, rows: nat) -> Grid {
    Seq::new(cols, |c: int| Seq::new(rows, |r: int| blank()))
}

/// `g` with the cell at column `col`, row `row` replaced by `glyph`.
pub open spec fn with_cell(g: Grid, col: int, row: int, glyph: Seq<char>) -> Grid {
    g.update(col, g[col].update(row, glyph))
}

/// Builds a frame of `cols` by `rows` cells, every one of them empty.
pub fn blank_frame(cols: usize, rows: usize) -> (frame: Frame)
    ensures
        grid_of(frame) == blank_grid(cols as nat, rows as nat),
        is_grid(grid_of(frame), cols as nat, rows as nat),
{
    let mut frame: Frame = Vec::with_capacity(cols);
    let mut c: usize = 0;
    while c < cols
        invariant
            c <= cols,
            frame.len() == c,
            forall|i: int| 0 <= i < c ==> (#[trigger] frame[i]).len() == rows,
            forall|i: int, j: int| 0 <= i < c && 0 <= j < rows ==> (#[trigger] frame[i][j])@ == blank(),
        decreases cols - c,
    {
        let mut col: Vec<&'static str> = Vec::with_capacity(rows);
        let mut r: usize = 0;
        while r < rows
            invariant
                r <= rows,
                col.len() == r,
                forall|j: int| 0 <= j < r ==> (#[trigger] col[j])@ == blank(),
            decreases rows - r,
        {
            col.push(" ");
            r += 1;
        }
        frame.push(col);
        c += 1;
    }
    assert(grid_of(frame) =~~= blank_grid(cols as nat, rows as nat));
    frame
}

/// Builds the frame of one tick: `NUM_COLS` by `NUM_ROWS` cells, all empty.
pub fn new_frame() -> (frame: Frame)
    ensures
        grid_of(frame) == blank_grid(NUM_COLS as nat, NUM_ROWS as nat),
        is_grid(grid_of(frame), NUM_COLS as nat, NUM_ROWS as nat),
{
    blank_frame(NUM_COLS, NUM_ROWS)
}

/// Tells whether `frame` has exactly `cols` columns of exactly `rows` cells.
pub fn has_size(frame: &Frame, cols: usize, rows: usize) -> (fits: bool)
    ensures
        fits == is_grid(grid_of(*frame), cols as nat, rows as nat),
{
    if frame.len() != cols {
        return false;
    }
    let mut c: usize = 0;
    while c < frame.len()
        invariant
            c <= frame.len(),
            forall|i: int| 0 <= i < c ==> (#[trigger] grid_of(*frame)[i]).len() == rows,
        decreases frame.len() - c,
    {
        if frame[c].len() != rows {
            assert(grid_of(*frame)[c as int].len() != rows);
            return false;
        }
        c += 1;
    }
    true
}

/// Reads the glyph of the cell at column `col`, row `row`.
pub fn glyph_at(frame: &Frame, col: usize, row: usize) -> (glyph: &'static str)
    requires
        col < grid_of(*frame).len(),
        row < grid_of(*frame)[col as int].len(),
    ensures
        glyph@ == grid_of(*frame)[col as int][row as int],
{
    frame[col][row]
}

/// Paints `glyph` into the cell at column `col`, row `row`; every other cell
/// keeps its glyph. A later paint of the same cell replaces an earlier one.
pub fn put_glyph(frame: &mut Frame, col: usize, row: usize, glyph: &'static str)
    requires
        col < grid_of(*old(frame)).len(),
        row < grid_of(*old(frame))[col as int].len(),
    ensures
        grid_of(*final(frame)) == with_cell(grid_of(*old(frame)), col as int, row as int, glyph@),
{
    frame[col][row] = glyph;
    assert(grid_of(*frame) =~~= with_cell(grid_of(*old(frame)), col as int, row as int, glyph@));
}

/// Something that can paint itself into a frame.
pub trait Drawable {
    /// Paints this item into `frame` at its current state. Only glyphs
    /// change: the frame keeps its columns and rows.
    fn draw(&self, frame: &mut Frame)
        requires
            is_grid(grid_of(*old(frame)), NUM_COLS as nat, NUM_ROWS as nat),
        ensures
            is_grid(grid_of(*final(frame)), NUM_COLS as nat, NUM_ROWS as nat),
    ;
}

} // verus!
