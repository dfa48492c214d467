use protos::ai::sparse_grid::{GridPos, SparseGrid};

#[test]
fn sparse_grid_new_fills_every_cell() {
    let g: SparseGrid<u8> = SparseGrid::new(5, 3, Some(7));
    assert_eq!(g.width(), 5);
    assert_eq!(g.height(), 3);
    for y in 0..3 {
        for x in 0..5 {
            assert_eq!(g.get(GridPos::new(x, y)), Some(&7));
            assert!(g.contains(GridPos::new(x, y)));
        }
    }
}

#[test]
fn sparse_grid_new_empty_fill() {
    let g: SparseGrid<u8> = SparseGrid::new(4, 4, None);
    assert_eq!(g.get(GridPos::new(1, 2)), None);
    assert!(!g.contains(GridPos::new(1, 2)));
}

#[test]
fn sparse_grid_insert_then_get() {
    let mut g: SparseGrid<u32> = SparseGrid::new(4, 4, None);
    g.insert(GridPos::new(2, 3), 42);
    assert_eq!(g.get(GridPos::new(2, 3)), Some(&42));
    assert_eq!(g.get(GridPos::new(3, 2)), None);
    g.insert(GridPos::new(2, 3), 43);
    assert_eq!(g.get(GridPos::new(2, 3)), Some(&43));
}

#[test]
fn sparse_grid_out_of_bounds_is_ignored() {
    let mut g: SparseGrid<u32> = SparseGrid::new(4, 4, None);
    g.insert(GridPos::new(0, 4), 1);
    assert_eq!(g.get(GridPos::new(0, 4)), None);
    g.insert(GridPos::new(-1, 0), 1);
    assert_eq!(g.get(GridPos::new(-1, 0)), None);
    g.insert(GridPos::new(0, -1), 1);
    assert_eq!(g.get(GridPos::new(0, -1)), None);
    for y in 0..4 {
        for x in 0..4 {
            assert_eq!(g.get(GridPos::new(x, y)), None);
        }
    }
}

#[test]
fn sparse_grid_rows_are_a_power_of_two_apart() {
    // width 5 is stored with rows 8 cells apart: (8, 0) is the cell of (0, 1)
    let mut g: SparseGrid<u32> = SparseGrid::new(5, 2, None);
    g.insert(GridPos::new(8, 0), 9);
    assert_eq!(g.get(GridPos::new(0, 1)), Some(&9));
    // the padding cells 5..8 of a row exist
    g.insert(GridPos::new(6, 0), 3);
    assert_eq!(g.get(GridPos::new(6, 0)), Some(&3));
    // (16, 0) is past the 16 stored cells
    g.insert(GridPos::new(16, 0), 4);
    assert_eq!(g.get(GridPos::new(16, 0)), None);
}

#[test]
fn sparse_grid_zero_width_has_stride_one() {
    let g: SparseGrid<u8> = SparseGrid::new(0, 3, Some(1));
    assert_eq!(g.width(), 0);
    assert_eq!(g.get(GridPos::new(0, 2)), Some(&1));
    assert_eq!(g.get(GridPos::new(0, 3)), None);
}

#[test]
fn sparse_grid_remove_returns_and_empties() {
    let mut g: SparseGrid<u32> = SparseGrid::new(3, 3, Some(5));
    assert_eq!(g.remove(GridPos::new(1, 1)), Some(5));
    assert_eq!(g.get(GridPos::new(1, 1)), None);
    assert_eq!(g.remove(GridPos::new(1, 1)), None);
    assert_eq!(g.get(GridPos::new(0, 1)), Some(&5));
    assert_eq!(g.remove(GridPos::new(3, 3)), None);
}

#[test]
fn sparse_grid_get_mut_writes_through() {
    let mut g: SparseGrid<u32> = SparseGrid::new(3, 3, Some(5));
    if let Some(v) = g.get_mut(GridPos::new(2, 2)) {
        *v = 11;
    }
    assert_eq!(g.get(GridPos::new(2, 2)), Some(&11));
    g.remove(GridPos::new(0, 0));
    assert!(g.get_mut(GridPos::new(0, 0)).is_none());
}

#[test]
fn sparse_grid_reset_resizes_and_fills() {
    let mut g: SparseGrid<u32> = SparseGrid::new(2, 2, Some(1));
    g.reset(3, 4, Some(2));
    assert_eq!(g.width(), 3);
    assert_eq!(g.height(), 4);
    assert_eq!(g.get(GridPos::new(2, 3)), Some(&2));
    assert_eq!(g.get(GridPos::new(0, 0)), Some(&2));
    g.reset(1, 1, None);
    assert_eq!(g.get(GridPos::new(0, 0)), None);
}

#[test]
fn grid_pos_add_sub() {
    let a = GridPos::new(3, -4);
    let b = GridPos::new(-1, 2);
    assert_eq!(a + b, GridPos::new(2, -2));
    assert_eq!(a - b, GridPos::new(4, -6));
    assert_eq!((a + b) - b, a);
}

#[test]
fn grid_pos_vn_offsets() {
    let o = GridPos::vn_offsets();
    assert_eq!(o, [GridPos::new(-1, 0), GridPos::new(1, 0), GridPos::new(0, -1), GridPos::new(0, 1)]);
}
