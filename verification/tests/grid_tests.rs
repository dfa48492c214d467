use protos::grid::{Grid, GridPos};
use protos::sparse_grid::{GridPos as SquarePos, SparseGrid};

#[test]
fn grid_raw_index() {
    assert_eq!(GridPos::new(0, 0).as_raw(), 0);
    assert_eq!(GridPos::new(1, 2).as_raw(), 1026);
    assert_eq!(GridPos::new(65535, 65535).as_raw(), 65535 * 1024 + 65535);
}

#[test]
fn grid_grows_on_insert() {
    let mut g: Grid<u8> = Grid::new();
    assert!(!g.contains(GridPos::new(1, 1)));
    assert_eq!(g.get(GridPos::new(1, 1)), None);
    g.insert(GridPos::new(1, 1), 3);
    assert_eq!(g.values.len(), 1026);
    assert_eq!(g.get(GridPos::new(1, 1)), Some(&3));
    assert!(g.contains(GridPos::new(1, 1)));
    assert_eq!(g.get(GridPos::new(0, 5)), None);
    // an earlier index does not shrink the storage
    g.insert(GridPos::new(0, 3), 4);
    assert_eq!(g.values.len(), 1026);
    assert_eq!(g.get(GridPos::new(0, 3)), Some(&4));
    assert_eq!(g.get(GridPos::new(1, 1)), Some(&3));
}

#[test]
fn grid_positions_alias_past_1024() {
    let mut g: Grid<u8> = Grid::with_capacity(16);
    g.insert(GridPos::new(0, 1024), 8);
    assert_eq!(g.get(GridPos::new(1, 0)), Some(&8));
}

#[test]
fn grid_remove_get_mut_clear() {
    let mut g: Grid<u32> = Grid::new();
    g.insert(GridPos::new(0, 2), 10);
    if let Some(v) = g.get_mut(GridPos::new(0, 2)) {
        *v += 1;
    }
    assert_eq!(g.remove(GridPos::new(0, 2)), Some(11));
    assert_eq!(g.remove(GridPos::new(0, 2)), None);
    assert_eq!(g.remove(GridPos::new(9, 9)), None);
    g.clear();
    assert_eq!(g.values.len(), 0);
}

#[test]
fn grid_get_or_insert_with() {
    let mut g: Grid<u32> = Grid::new();
    *g.get_or_insert_with(GridPos::new(0, 4), || 5) += 1;
    assert_eq!(g.get(GridPos::new(0, 4)), Some(&6));
    // an existing value is kept and the function not called
    let v = g.get_or_insert_with(GridPos::new(0, 4), || panic!("not called"));
    assert_eq!(*v, 6);
    // an empty cell inside the storage is filled
    let v = g.get_or_insert_with(GridPos::new(0, 1), || 9);
    assert_eq!(*v, 9);
    assert_eq!(g.values.len(), 5);
}

#[test]
fn square_grid_new_and_index() {
    let g: SparseGrid<u8> = SparseGrid::new(3, Some(1));
    assert_eq!(g.width, 3);
    assert_eq!(g.values.len(), 9);
    assert_eq!(g.get(SquarePos::new(2, 2)), Some(&1));
    assert_eq!(g.get(SquarePos::new(3, 0)), None);
}

#[test]
fn square_grid_insert_grows() {
    let mut g: SparseGrid<u8> = SparseGrid::new(3, None);
    g.insert(SquarePos::new(4, 1), 7);
    assert_eq!(g.values.len(), 14);
    assert_eq!(g.get(SquarePos::new(4, 1)), Some(&7));
    assert!(g.contains(SquarePos::new(4, 1)));
    assert!(!g.contains(SquarePos::new(0, 0)));
    // (x, y) is stored at x * width + y: (0, 3) and (1, 0) share a cell
    g.insert(SquarePos::new(0, 3), 2);
    assert_eq!(g.get(SquarePos::new(1, 0)), Some(&2));
}

#[test]
fn square_grid_remove_get_mut_get_or_insert_clear() {
    let mut g: SparseGrid<u32> = SparseGrid::new(2, None);
    assert_eq!(*g.get_or_insert_with(SquarePos::new(1, 1), || 4), 4);
    if let Some(v) = g.get_mut(SquarePos::new(1, 1)) {
        *v = 5;
    }
    assert_eq!(g.remove(SquarePos::new(1, 1)), Some(5));
    assert_eq!(g.get(SquarePos::new(1, 1)), None);
    assert_eq!(*g.get_or_insert_with(SquarePos::new(5, 0), || 6), 6);
    assert_eq!(g.values.len(), 11);
    g.clear();
    assert!(g.values.is_empty());
    assert_eq!(g.width, 2);
}
