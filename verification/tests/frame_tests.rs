use space_invaders::frame::{blank_frame, glyph_at, has_size, new_frame, put_glyph, Drawable, Frame};
use space_invaders::{NUM_COLS, NUM_ROWS};

struct Stamp {
    col: usize,
    row: usize,
    glyph: &'static str,
}

impl Drawable for Stamp {
    fn draw(&self, frame: &mut Frame) {
        frame[self.col][self.row] = self.glyph;
    }
}

#[test]
fn new_frame_has_the_fixed_dimensions() {
    let frame = new_frame();
    assert_eq!(NUM_COLS, 40);
    assert_eq!(NUM_ROWS, 20);
    assert_eq!(frame.len(), NUM_COLS);
    for col in frame.iter() {
        assert_eq!(col.len(), NUM_ROWS);
    }
    assert!(has_size(&frame, NUM_COLS, NUM_ROWS));
}

#[test]
fn new_frame_is_all_spaces() {
    let frame = new_frame();
    for col in frame.iter() {
        for glyph in col.iter() {
            assert_eq!(*glyph, " ");
        }
    }
}

#[test]
fn blank_frame_three_by_three() {
    let frame = blank_frame(3, 3);
    assert_eq!(frame, vec![vec![" "; 3]; 3]);
}

#[test]
fn blank_frame_is_column_major() {
    let frame = blank_frame(2, 5);
    assert_eq!(frame.len(), 2);
    assert_eq!(frame[0].len(), 5);
    assert_eq!(frame[1].len(), 5);
}

#[test]
fn blank_frame_without_cells() {
    assert_eq!(blank_frame(0, 7), Vec::<Vec<&'static str>>::new());
    assert_eq!(blank_frame(2, 0), vec![Vec::<&'static str>::new(); 2]);
}

#[test]
fn has_size_tells_dimensions_apart() {
    let frame = blank_frame(3, 4);
    assert!(has_size(&frame, 3, 4));
    assert!(!has_size(&frame, 4, 3));
    assert!(!has_size(&frame, 3, 3));
    assert!(!has_size(&frame, 2, 4));
}

#[test]
fn has_size_rejects_a_ragged_frame() {
    let mut frame = blank_frame(3, 3);
    frame[2].push(" ");
    assert!(!has_size(&frame, 3, 3));
    assert!(!has_size(&frame, 3, 4));
}

#[test]
fn put_glyph_changes_one_cell() {
    let mut frame = blank_frame(3, 3);
    put_glyph(&mut frame, 1, 2, "X");
    for c in 0..3 {
        for r in 0..3 {
            let expected = if (c, r) == (1, 2) { "X" } else { " " };
            assert_eq!(glyph_at(&frame, c, r), expected);
        }
    }
}

#[test]
fn glyph_at_reads_column_then_row() {
    let mut frame = blank_frame(2, 3);
    frame[1][2] = "Z";
    assert_eq!(glyph_at(&frame, 1, 2), "Z");
    assert_eq!(glyph_at(&frame, 0, 2), " ");
}

#[test]
fn later_paint_wins() {
    let mut frame = new_frame();
    let first = Stamp { col: 5, row: 7, glyph: "A" };
    let second = Stamp { col: 5, row: 7, glyph: "B" };
    first.draw(&mut frame);
    assert_eq!(frame[5][7], "A");
    second.draw(&mut frame);
    assert_eq!(frame[5][7], "B");
    assert!(has_size(&frame, NUM_COLS, NUM_ROWS));
}

#[test]
fn later_put_glyph_wins() {
    let mut frame = blank_frame(3, 3);
    put_glyph(&mut frame, 0, 0, "A");
    put_glyph(&mut frame, 0, 0, "B");
    assert_eq!(glyph_at(&frame, 0, 0), "B");
}

#[test]
fn drawables_paint_in_the_order_called() {
    let mut frame = new_frame();
    let items = vec![
        Stamp { col: 0, row: 0, glyph: "A" },
        Stamp { col: 39, row: 19, glyph: "|" },
        Stamp { col: 0, row: 0, glyph: "B" },
    ];
    for item in items.iter() {
        item.draw(&mut frame);
    }
    assert_eq!(frame[0][0], "B");
    assert_eq!(frame[39][19], "|");
}
