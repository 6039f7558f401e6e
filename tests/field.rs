use wavefield::field::{Field, Neighborhood};
use wavefield::grid::GridError;

fn values(n: &Neighborhood<i64>) -> [i64; 9] {
    [
        n.center, n.right, n.left, n.down, n.up, n.down_right, n.up_left, n.up_right, n.down_left,
    ]
}

/// Integer stand-in for the discrete Laplacian: orthogonal and diagonal sums,
/// each less four times the center.
fn laplacian(n: Neighborhood<i64>) -> i64 {
    (n.right + n.left + n.down + n.up - 4 * n.center)
        + (n.down_right + n.up_left + n.up_right + n.down_left - 4 * n.center)
}

#[test]
fn new_field_is_blank_and_unstepped() {
    let f = Field::new(3, 2, 9u8).unwrap();
    assert_eq!(f.width(), 3);
    assert_eq!(f.height(), 2);
    assert_eq!(f.size(), 6);
    assert_eq!(f.steps(), 0);
    assert_eq!(f.cells(), &vec![9u8; 6]);
}

#[test]
fn new_field_rejects_empty_dimensions() {
    assert!(matches!(Field::new(0, 3, 0u8), Err(GridError::ZeroWidth)));
    assert!(matches!(Field::new(3, 0, 0u8), Err(GridError::ZeroHeight)));
}

#[test]
fn set_and_get_wrap() {
    let mut f = Field::new(4, 4, 0i64).unwrap();
    f.set(-1, -1, 5);
    assert_eq!(f.get(3, 3), 5);
    assert_eq!(f.cells()[15], 5);
    assert_eq!(f.at(7, 7), 15);
}

#[test]
fn fill_with_passes_coordinates_row_major() {
    let mut f = Field::new(3, 2, 0u32).unwrap();
    f.fill_with(|x, y| x + 10 * y);
    assert_eq!(f.cells(), &vec![0, 1, 2, 10, 11, 12]);
    assert_eq!(f.steps(), 0);
}

#[test]
fn uniform_field_has_zero_laplacian() {
    let f = Field::new(5, 4, 7i64).unwrap();
    let lap = f.map_neighborhoods(laplacian);
    assert_eq!(lap, vec![0; 20]);
    let n = f.neighborhood(2, 3);
    assert_eq!(values(&n), [7; 9]);
}

#[test]
fn single_cell_field_reads_itself_nine_times() {
    let mut f = Field::new(1, 1, 0i64).unwrap();
    f.set(0, 0, 3);
    let n = f.neighborhood(0, 0);
    assert_eq!(values(&n), [3; 9]);
    assert_eq!(f.map_neighborhoods(laplacian), vec![0]);
}

#[test]
fn isolated_cell_reaches_only_its_periodic_neighbours() {
    let mut f = Field::new(4, 4, 0i64).unwrap();
    f.set(0, 0, 1);
    let lap = f.map_neighborhoods(laplacian);
    for y in 0..4i64 {
        for x in 0..4i64 {
            let near_x = x == 0 || x == 1 || x == 3;
            let near_y = y == 0 || y == 1 || y == 3;
            let v = lap[(y * 4 + x) as usize];
            if x == 0 && y == 0 {
                assert_eq!(v, -8);
            } else if near_x && near_y {
                assert_eq!(v, 1);
            } else {
                assert_eq!(v, 0);
            }
        }
    }
}

#[test]
fn commit_combines_and_counts_steps() {
    let mut f = Field::new(2, 2, 1i64).unwrap();
    f.set(1, 0, 2);
    let next = f.map_neighborhoods(|n| n.right);
    assert_eq!(next, vec![2, 1, 1, 1]);
    f.commit(next, |c, d| 10 * c + d);
    assert_eq!(f.cells(), &vec![12, 21, 11, 11]);
    assert_eq!(f.steps(), 1);
    let next = f.map_neighborhoods(|n| n.center);
    f.commit(next, |_c, d| d);
    assert_eq!(f.steps(), 2);
    assert_eq!(f.cells(), &vec![12, 21, 11, 11]);
}
