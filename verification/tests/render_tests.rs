use space_invaders::frame::{blank_frame, new_frame, put_glyph};
use space_invaders::render::{render, CellWrite};
use space_invaders::{NUM_COLS, NUM_ROWS};

#[test]
fn full_redraw_writes_every_cell() {
    let frame = new_frame();
    let writes = render(&frame, &frame, true);
    assert_eq!(writes.len(), NUM_COLS * NUM_ROWS);
    assert_eq!(writes.len(), 800);
    assert_eq!(writes[0], CellWrite { col: 1, row: 1, glyph: " " });
    assert_eq!(writes[1], CellWrite { col: 1, row: 2, glyph: " " });
    assert_eq!(writes[NUM_ROWS], CellWrite { col: 2, row: 1, glyph: " " });
    assert_eq!(writes[799], CellWrite { col: 40, row: 20, glyph: " " });
}

#[test]
fn full_redraw_shows_the_current_glyphs() {
    let prev = blank_frame(2, 2);
    let mut curr = blank_frame(2, 2);
    put_glyph(&mut curr, 1, 0, "A");
    let writes = render(&prev, &curr, true);
    assert_eq!(
        writes,
        vec![
            CellWrite { col: 1, row: 1, glyph: " " },
            CellWrite { col: 1, row: 2, glyph: " " },
            CellWrite { col: 2, row: 1, glyph: "A" },
            CellWrite { col: 2, row: 2, glyph: " " },
        ]
    );
}

#[test]
fn one_changed_cell_gives_one_write() {
    let prev = blank_frame(3, 3);
    let mut curr = blank_frame(3, 3);
    put_glyph(&mut curr, 1, 1, "X");
    let writes = render(&prev, &curr, false);
    assert_eq!(writes, vec![CellWrite { col: 2, row: 2, glyph: "X" }]);
}

#[test]
fn same_frame_gives_no_write() {
    let mut frame = new_frame();
    put_glyph(&mut frame, 3, 4, "A");
    let writes = render(&frame, &frame, false);
    assert!(writes.is_empty());
}

#[test]
fn equal_frames_give_no_write() {
    let mut prev = blank_frame(3, 3);
    let mut curr = blank_frame(3, 3);
    put_glyph(&mut prev, 2, 0, "A");
    put_glyph(&mut curr, 2, 0, "A");
    assert!(render(&prev, &curr, false).is_empty());
}

#[test]
fn glyphs_are_compared_by_their_characters() {
    let prev = vec![vec!["ab", "ab"]];
    let made = String::from("a") + "b";
    let leaked: &'static str = Box::leak(made.into_boxed_str());
    let curr = vec![vec![leaked, "ac"]];
    let writes = render(&prev, &curr, false);
    assert_eq!(writes, vec![CellWrite { col: 1, row: 2, glyph: "ac" }]);
}

#[test]
fn k_changed_cells_give_k_writes() {
    let mut prev = blank_frame(4, 3);
    let mut curr = blank_frame(4, 3);
    put_glyph(&mut prev, 0, 0, "A");
    put_glyph(&mut curr, 0, 0, "A");
    put_glyph(&mut prev, 3, 2, "B");
    put_glyph(&mut curr, 2, 1, "C");
    put_glyph(&mut curr, 0, 2, "D");
    let writes = render(&prev, &curr, false);
    assert_eq!(
        writes,
        vec![
            CellWrite { col: 1, row: 3, glyph: "D" },
            CellWrite { col: 3, row: 2, glyph: "C" },
            CellWrite { col: 4, row: 3, glyph: " " },
        ]
    );
}

#[test]
fn erased_cell_is_written_as_space() {
    let mut prev = blank_frame(3, 3);
    put_glyph(&mut prev, 1, 1, "X");
    let curr = blank_frame(3, 3);
    let writes = render(&prev, &curr, false);
    assert_eq!(writes, vec![CellWrite { col: 2, row: 2, glyph: " " }]);
}

#[test]
fn writes_never_exceed_the_cells() {
    let prev = blank_frame(3, 2);
    let mut curr = blank_frame(3, 2);
    for c in 0..3 {
        for r in 0..2 {
            put_glyph(&mut curr, c, r, "#");
        }
    }
    assert_eq!(render(&prev, &curr, false).len(), 6);
    assert_eq!(render(&prev, &curr, true).len(), 6);
}

#[test]
fn empty_frames_give_no_write() {
    let prev = blank_frame(0, 0);
    let curr = blank_frame(0, 0);
    assert!(render(&prev, &curr, true).is_empty());
    assert!(render(&prev, &curr, false).is_empty());
}

#[test]
fn writes_turn_previous_into_current() {
    let mut prev = blank_frame(5, 4);
    let mut curr = blank_frame(5, 4);
    put_glyph(&mut prev, 0, 0, "A");
    put_glyph(&mut prev, 4, 3, "|");
    put_glyph(&mut prev, 2, 2, "#");
    put_glyph(&mut curr, 1, 0, "A");
    put_glyph(&mut curr, 4, 2, "|");
    put_glyph(&mut curr, 2, 2, "#");
    for force in [false, true] {
        let mut screen = prev.clone();
        for write in render(&prev, &curr, force) {
            put_glyph(&mut screen, write.col - 1, write.row - 1, write.glyph);
        }
        assert_eq!(screen, curr);
    }
}
