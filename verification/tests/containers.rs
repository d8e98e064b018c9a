use lbm2d::array2d::Array2D;
use lbm2d::cell::GridCell;

#[test]
fn cell_is_three_by_three() {
    let c = GridCell::from_data([0i64; 9]);
    assert_eq!(c.width(), 3);
    assert_eq!(c.height(), 3);
    assert_eq!(c.data().len(), 9);
}

#[test]
fn cell_calc_index_is_row_major() {
    let c = GridCell::from_data([0i64; 9]);
    assert_eq!(c.calc_index((0, 0)), 0);
    assert_eq!(c.calc_index((2, 0)), 2);
    assert_eq!(c.calc_index((0, 1)), 3);
    assert_eq!(c.calc_index((2, 2)), 8);
}

#[test]
fn cell_offset_access() {
    let mut c = GridCell::from_data([0i64; 9]);
    c.set_at((1, 2), 42);
    assert_eq!(*c.at((1, 2)), 42);
    assert_eq!(*c.get_idx(7), 42);
    c.set_idx(0, 7);
    assert_eq!(*c.at((0, 0)), 7);
}

#[test]
fn cell_data_mut_writes_through() {
    let mut c = GridCell::from_data([0i64; 9]);
    c.data_mut()[4] = 11;
    assert_eq!(c.data(), &[0, 0, 0, 0, 11, 0, 0, 0, 0]);
}

#[test]
fn cell_from_data_keeps_order() {
    let c = GridCell::from_data([1i64, 2, 3, 4, 5, 6, 7, 8, 9]);
    for i in 0..9 {
        assert_eq!(*c.get_idx(i), (i + 1) as i64);
    }
}

#[test]
fn array2d_new_fills() {
    let a: Array2D<u8> = Array2D::new(4, 3, 7);
    assert_eq!(a.width(), 4);
    assert_eq!(a.height(), 3);
    for y in 0..3 {
        for x in 0..4 {
            assert_eq!(*a.get(x, y), 7);
        }
    }
}

#[test]
fn array2d_set_is_pointwise() {
    let mut a: Array2D<u8> = Array2D::new(3, 3, 0);
    a.set(2, 1, 9);
    for y in 0..3 {
        for x in 0..3 {
            let expected = if x == 2 && y == 1 { 9 } else { 0 };
            assert_eq!(*a.get(x, y), expected);
        }
    }
}

#[test]
fn array2d_fill_overwrites() {
    let mut a: Array2D<u8> = Array2D::new(3, 2, 0);
    a.set(1, 1, 5);
    a.fill(2);
    for y in 0..2 {
        for x in 0..3 {
            assert_eq!(*a.get(x, y), 2);
        }
    }
}
