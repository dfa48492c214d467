use protos::ai::pathfind::{
    distance_floor, find_path, path_from_search, path_is_connected, plan_path, same_tile, smoothify_path,
    successors, HalfPos, PathPoint,
};
use protos::ai::sparse_grid::{GridPos, SparseGrid};

fn path(points: &[(i32, i32)]) -> Vec<GridPos> {
    points.iter().map(|(x, y)| GridPos::new(*x, *y)).collect()
}

#[test]
fn empty_path_smooths_to_nothing() {
    assert!(smoothify_path(&Vec::new()).is_empty());
}

#[test]
fn single_point_path() {
    assert_eq!(smoothify_path(&path(&[(4, 4)])), vec![PathPoint::Start, PathPoint::End]);
}

#[test]
fn straight_path_has_no_corners() {
    let p = path(&[(0, 0), (1, 0), (2, 0), (3, 0)]);
    assert_eq!(smoothify_path(&p), vec![PathPoint::Start, PathPoint::End]);
}

#[test]
fn turn_right_then_up() {
    // east twice, then north twice: the turn is entered going north at (2, 1)
    let p = path(&[(0, 0), (1, 0), (2, 0), (2, 1), (2, 2)]);
    assert_eq!(
        smoothify_path(&p),
        vec![PathPoint::Start, PathPoint::Corner(HalfPos { x: 5, z: 2 }), PathPoint::End]
    );
}

#[test]
fn corner_offsets_by_direction() {
    // north then east: entered going east at (1, 1): x + 0, z + 0.5
    let p = path(&[(0, 0), (0, 1), (1, 1)]);
    assert_eq!(smoothify_path(&p)[1], PathPoint::Corner(HalfPos { x: 2, z: 3 }));
    // north then west: entered going west at (-1, 1): x + 1, z + 0.5
    let p = path(&[(0, 0), (0, 1), (-1, 1)]);
    assert_eq!(smoothify_path(&p)[1], PathPoint::Corner(HalfPos { x: 0, z: 3 }));
    // east then south: entered going south at (1, -1): x + 0.5, z + 1
    let p = path(&[(0, 0), (1, 0), (1, -1)]);
    assert_eq!(smoothify_path(&p)[1], PathPoint::Corner(HalfPos { x: 3, z: 0 }));
    // diagonal after east: entered with x step 1 at (2, 1): x + 0, z + 0.5
    let p = path(&[(0, 0), (1, 0), (2, 1)]);
    assert_eq!(smoothify_path(&p)[1], PathPoint::Corner(HalfPos { x: 4, z: 3 }));
}

#[test]
fn first_step_is_never_a_corner_and_repeats_reset() {
    // a repeated point is a zero step; the step after it is no turn
    let p = path(&[(0, 0), (0, 0), (1, 0), (1, 1)]);
    assert_eq!(
        smoothify_path(&p),
        vec![PathPoint::Start, PathPoint::Corner(HalfPos { x: 3, z: 2 }), PathPoint::End]
    );
    // a zero step after a move is a turn placed on the tile itself, and the
    // move after it is not
    let p = path(&[(0, 0), (1, 0), (1, 0), (1, 1)]);
    assert_eq!(smoothify_path(&p), vec![PathPoint::Start, PathPoint::Corner(HalfPos { x: 2, z: 0 }), PathPoint::End]);
}

#[test]
fn zigzag_has_a_corner_per_turn() {
    let p = path(&[(0, 0), (1, 0), (1, 1), (2, 1), (2, 2)]);
    let r = smoothify_path(&p);
    assert_eq!(r.len(), 5);
    assert_eq!(r[0], PathPoint::Start);
    assert_eq!(r[4], PathPoint::End);
}

#[test]
fn connected_paths() {
    assert!(path_is_connected(&Vec::new()));
    assert!(path_is_connected(&path(&[(3, 3)])));
    assert!(path_is_connected(&path(&[(0, 0), (1, 1), (1, 0), (0, -1)])));
    assert!(!path_is_connected(&path(&[(0, 0), (2, 0)])));
    assert!(!path_is_connected(&path(&[(0, 0), (0, 1), (0, 3)])));
}

#[test]
fn successors_are_costed_neighbours() {
    let mut grid: SparseGrid<u8> = SparseGrid::new(4, 4, Some(32));
    grid.insert(GridPos::new(2, 1), 1);
    grid.remove(GridPos::new(1, 2));
    assert_eq!(
        successors(&grid, GridPos::new(1, 1)),
        vec![(GridPos::new(0, 1), 32), (GridPos::new(2, 1), 1), (GridPos::new(1, 0), 32)]
    );
    // no neighbours below or left of the corner
    assert_eq!(
        successors(&grid, GridPos::new(0, 0)),
        vec![(GridPos::new(1, 0), 32), (GridPos::new(0, 1), 32)]
    );
    assert!(successors(&grid, GridPos::new(i32::MAX, i32::MIN)).is_empty());
}

#[test]
fn successors_stay_inside_the_width() {
    // width 3 is stored with rows 4 apart: the fourth column is no tile
    let grid: SparseGrid<u8> = SparseGrid::new(3, 2, Some(5));
    assert_eq!(
        successors(&grid, GridPos::new(2, 0)),
        vec![(GridPos::new(1, 0), 5), (GridPos::new(2, 1), 5)]
    );
}

#[test]
fn distance_floor_rounds_down() {
    assert_eq!(distance_floor(GridPos::new(0, 0), GridPos::new(3, 4)), 5);
    assert_eq!(distance_floor(GridPos::new(1, 1), GridPos::new(0, 0)), 1);
    assert_eq!(distance_floor(GridPos::new(0, 0), GridPos::new(-2, 3)), 3);
    assert_eq!(distance_floor(GridPos::new(7, 7), GridPos::new(7, 7)), 0);
    assert_eq!(distance_floor(GridPos::new(0, 0), GridPos::new(0, 65536)), 65536);
    assert_eq!(
        distance_floor(GridPos::new(i32::MIN, i32::MIN), GridPos::new(i32::MAX, i32::MAX)),
        u32::MAX
    );
}

#[test]
fn same_tile_compares_both_coordinates() {
    assert!(same_tile(&GridPos::new(1, 2), GridPos::new(1, 2)));
    assert!(!same_tile(&GridPos::new(1, 2), GridPos::new(2, 1)));
}

fn detour_grid() -> SparseGrid<u8> {
    let mut grid: SparseGrid<u8> = SparseGrid::new(3, 3, Some(32));
    grid.insert(GridPos::new(1, 0), 200);
    grid
}

#[test]
fn find_path_goes_straight_when_cheapest() {
    let grid: SparseGrid<u8> = SparseGrid::new(3, 3, Some(32));
    assert_eq!(
        find_path(&grid, GridPos::new(0, 0), GridPos::new(2, 0)),
        Some((path(&[(0, 0), (1, 0), (2, 0)]), 64))
    );
}

#[test]
fn find_path_takes_the_cheaper_detour() {
    let grid = detour_grid();
    assert_eq!(
        find_path(&grid, GridPos::new(0, 0), GridPos::new(2, 0)),
        Some((path(&[(0, 0), (0, 1), (1, 1), (2, 1), (2, 0)]), 128))
    );
}

#[test]
fn find_path_to_itself() {
    let grid = detour_grid();
    assert_eq!(
        find_path(&grid, GridPos::new(1, 1), GridPos::new(1, 1)),
        Some((path(&[(1, 1)]), 0))
    );
}

#[test]
fn find_path_fails_behind_a_wall() {
    let mut grid: SparseGrid<u8> = SparseGrid::new(3, 3, Some(32));
    grid.remove(GridPos::new(1, 0));
    grid.remove(GridPos::new(1, 1));
    grid.remove(GridPos::new(1, 2));
    assert_eq!(find_path(&grid, GridPos::new(0, 0), GridPos::new(2, 0)), None);
    assert!(plan_path(&grid, GridPos::new(0, 0), GridPos::new(2, 0)).is_empty());
    // a goal outside the grid cannot be reached
    assert_eq!(find_path(&grid, GridPos::new(0, 0), GridPos::new(5, 0)), None);
}

#[test]
fn plan_path_smooths_the_detour() {
    let grid = detour_grid();
    assert_eq!(
        plan_path(&grid, GridPos::new(0, 0), GridPos::new(2, 0)),
        vec![
            PathPoint::Start,
            PathPoint::Corner(HalfPos { x: 2, z: 3 }),
            PathPoint::Corner(HalfPos { x: 5, z: 2 }),
            PathPoint::End
        ]
    );
    assert_eq!(
        plan_path(&grid, GridPos::new(1, 1), GridPos::new(1, 1)),
        vec![PathPoint::Start, PathPoint::End]
    );
}

#[test]
fn path_from_search_results() {
    assert!(path_from_search(None).is_empty());
    assert_eq!(
        path_from_search(Some((path(&[(0, 0), (1, 0)]), 7))),
        vec![PathPoint::Start, PathPoint::End]
    );
}
