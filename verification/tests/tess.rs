use twisty_beziers::tess::{center_line_indices, double_side, tess_path_indices};

#[test]
fn tess_path_two_rows_three_cols() {
    let r = tess_path_indices(2, 3);
    assert_eq!(r, vec![0, 1, 3, 4, 3, 1, 1, 2, 4, 5, 4, 2]);
}

#[test]
fn tess_path_size_and_bounds() {
    // three sample rows, two lanes each side: 2 * 2 + 1 = 5 vertices per row
    let rows = 3usize;
    let lanes = 2usize;
    let cols = 2 * lanes + 1;
    let r = tess_path_indices(rows, cols);
    assert_eq!(r.len(), 6 * (rows - 1) * (2 * lanes));
    for &i in &r {
        assert!((i as usize) < rows * cols);
    }
}

#[test]
fn tess_path_degenerate_is_empty() {
    assert!(tess_path_indices(0, 5).is_empty());
    assert!(tess_path_indices(1, 5).is_empty());
    assert!(tess_path_indices(5, 0).is_empty());
    assert!(tess_path_indices(5, 1).is_empty());
}

#[test]
fn tess_path_largest_grid() {
    // 256 * 256 vertices is the largest grid whose indices fit in u16
    let r = tess_path_indices(256, 256);
    assert_eq!(r.len(), 6 * 255 * 255);
    assert_eq!(r.iter().copied().max(), Some(u16::MAX));
    assert_eq!(r[0], 0);
    assert_eq!(r[1], 1);
    assert_eq!(r[2], 256);
    assert_eq!(r[3], 257);
}

#[test]
fn center_line_largest_polyline() {
    let n = 0x7fffusize;
    let r = center_line_indices(n);
    assert_eq!(r.len(), 2 * n - 1);
    assert_eq!(r.iter().copied().max(), Some((n - 1) as u16));
}

#[test]
fn center_line_pairs_vertices() {
    assert_eq!(center_line_indices(4), vec![0, 1, 1, 2, 2, 3, 3]);
}

#[test]
fn center_line_degenerate() {
    assert!(center_line_indices(0).is_empty());
    assert_eq!(center_line_indices(1), vec![0]);
}

#[test]
fn double_side_appends_reversed_triangles() {
    let mut v: Vec<u16> = vec![0, 1, 2, 3, 4, 5];
    double_side(&mut v);
    assert_eq!(v, vec![0, 1, 2, 3, 4, 5, 2, 1, 0, 5, 4, 3]);
}

#[test]
fn double_side_empty_stays_empty() {
    let mut v: Vec<u16> = Vec::new();
    double_side(&mut v);
    assert!(v.is_empty());
}

#[test]
fn double_sided_path_stays_in_bounds() {
    let rows = 4usize;
    let cols = 3usize;
    let mut r = tess_path_indices(rows, cols);
    double_side(&mut r);
    assert_eq!(r.len(), 2 * 6 * (rows - 1) * (cols - 1));
    for &i in &r {
        assert!((i as usize) < rows * cols);
    }
}
