use wavefield::grid::{Grid, GridError};

fn grid(w: u32, h: u32) -> Grid {
    Grid::new(w, h).unwrap()
}

#[test]
fn zero_width_is_rejected() {
    assert_eq!(Grid::new(0, 5), Err(GridError::ZeroWidth));
    assert_eq!(Grid::new(0, 0), Err(GridError::ZeroWidth));
}

#[test]
fn zero_height_is_rejected() {
    assert_eq!(Grid::new(5, 0), Err(GridError::ZeroHeight));
}

#[test]
fn dimensions_and_size() {
    let g = grid(300, 200);
    assert_eq!(g.width(), 300);
    assert_eq!(g.height(), 200);
    assert_eq!(g.size(), 60000);
}

#[test]
fn in_range_coordinates_are_row_major() {
    let g = grid(4, 3);
    assert_eq!(g.at(0, 0), 0);
    assert_eq!(g.at(3, 0), 3);
    assert_eq!(g.at(0, 1), 4);
    assert_eq!(g.at(2, 2), 10);
}

#[test]
fn periodic_edges_on_both_axes() {
    let w: u32 = 7;
    let h: u32 = 5;
    let g = grid(w, h);
    for y in -2..(h as i64 + 2) {
        assert_eq!(g.at(-1, y), g.at(w as i64 - 1, y));
        assert_eq!(g.at(w as i64, y), g.at(0, y));
    }
    for x in -2..(w as i64 + 2) {
        assert_eq!(g.at(x, -1), g.at(x, h as i64 - 1));
        assert_eq!(g.at(x, h as i64), g.at(x, 0));
    }
}

#[test]
fn negative_and_far_coordinates_wrap() {
    let g = grid(4, 3);
    assert_eq!(g.at(-1, 0), 3);
    assert_eq!(g.at(5, -1), 9);
    assert_eq!(g.at(-9, -7), g.at(3, 2));
    assert_eq!(g.at(i64::MIN, i64::MAX), g.at(0, 1));
    assert_eq!(g.at(i64::MAX, i64::MIN), g.at(3, 1));
}

#[test]
fn stencil_of_corner_wraps() {
    let g = grid(4, 4);
    let s = g.stencil(0, 0);
    assert_eq!(s.center, 0);
    assert_eq!(s.right, 1);
    assert_eq!(s.left, 3);
    assert_eq!(s.down, 4);
    assert_eq!(s.up, 12);
    assert_eq!(s.down_right, 5);
    assert_eq!(s.up_left, 15);
    assert_eq!(s.up_right, 13);
    assert_eq!(s.down_left, 7);
}

#[test]
fn single_cell_stencil_taps_the_cell_itself() {
    let g = grid(1, 1);
    let s = g.stencil(0, 0);
    for tap in [
        s.center, s.right, s.left, s.down, s.up, s.down_right, s.up_left, s.up_right, s.down_left,
    ] {
        assert_eq!(tap, 0);
    }
}
