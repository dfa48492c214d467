use protos::ai::ground::{Ground, Rect};
use protos::ai::slow_unit::NavGridCarve;
use protos::ai::sparse_grid::GridPos;
use protos::ai::velocity::escape_tile;

#[test]
fn escape_from_a_hole() {
    let mut g = Ground::new(16, 8);
    g.clear_tile(GridPos::new(2, 3), false);
    g.clear_tile(GridPos::new(4, 2), false);
    // (3, 3) and (4, 3) touch an empty tile; (5, 3) is the first refuge
    assert_eq!(escape_tile(&g, GridPos::new(2, 3)), Some(GridPos::new(6, 3)));
}

#[test]
fn no_escape_when_not_stuck() {
    let mut g = Ground::new(16, 8);
    assert_eq!(escape_tile(&g, GridPos::new(2, 3)), None);
    g.clear_tile(GridPos::new(20, 3), false);
    assert_eq!(escape_tile(&g, GridPos::new(20, 3)), None);
    assert_eq!(escape_tile(&g, GridPos::new(-1, 3)), None);
}

#[test]
fn no_escape_near_the_edge() {
    let mut g = Ground::new(16, 8);
    g.clear_tile(GridPos::new(5, 0), false);
    // every tile of row 0 has an empty neighbour below the ground
    assert_eq!(escape_tile(&g, GridPos::new(5, 0)), None);
    // past the right edge x = 4 is stored as the start of the next row, so
    // (3, 1) has all its neighbours
    let mut g = Ground::new(4, 4);
    g.clear_tile(GridPos::new(1, 1), false);
    assert_eq!(escape_tile(&g, GridPos::new(1, 1)), Some(GridPos::new(3, 1)));
    // in the top row the tiles above are missing
    let mut g = Ground::new(4, 4);
    g.clear_tile(GridPos::new(0, 3), false);
    assert_eq!(escape_tile(&g, GridPos::new(0, 3)), None);
}

#[test]
fn carve_and_restore() {
    let mut g = Ground::new(8, 8);
    g.set_tile(GridPos::new(3, 3), Ground::road(), false);
    g.clear_tile(GridPos::new(2, 2), false);
    let mut c = NavGridCarve::default();
    let bounds = Rect { left: 2, right: 5, top: 4, bottom: 2 };
    // 3 x 2 area; leave out its lower-right tile
    let inside = vec![true, true, false, true, true, true];
    c.carve(&mut g, bounds, &inside);
    for (x, y) in [(2, 2), (3, 2), (2, 3), (3, 3), (4, 3)] {
        assert!(g.get_tile(GridPos::new(x, y)).is_none(), "{x},{y}");
        assert!(g.nav_grid().get(GridPos::new(x, y)).is_none());
    }
    assert!(g.get_tile(GridPos::new(4, 2)).is_some());
    assert!(g.get_tile(GridPos::new(5, 3)).is_some());
    let mut dirty = Rect { left: 3, right: 4, top: 9, bottom: 3 };
    c.restore(&mut g, &mut dirty);
    assert_eq!(dirty, Rect { left: 2, right: 5, top: 9, bottom: 2 });
    assert!(g.get_tile(GridPos::new(2, 2)).is_none());
    assert_eq!(g.get_tile(GridPos::new(3, 3)).unwrap().nav_cost, 1);
    assert_eq!(g.nav_grid().get(GridPos::new(3, 3)), Some(&1));
    for (x, y) in [(3, 2), (2, 3), (4, 3), (4, 2)] {
        assert_eq!(g.get_tile(GridPos::new(x, y)).unwrap().nav_cost, 32);
    }
}

#[test]
fn restore_before_any_carve_does_nothing() {
    let mut g = Ground::new(4, 4);
    let c = NavGridCarve::default();
    let mut dirty = Rect { left: 1, right: 2, top: 2, bottom: 1 };
    c.restore(&mut g, &mut dirty);
    assert_eq!(dirty, Rect { left: 1, right: 2, top: 2, bottom: 1 });
    assert!(g.get_tile(GridPos::new(0, 0)).is_some());
}

#[test]
fn carve_outside_the_ground_takes_nothing() {
    let mut g = Ground::new(4, 4);
    let mut c = NavGridCarve::default();
    c.carve(&mut g, Rect { left: -3, right: -1, top: 1, bottom: 0 }, &vec![true, true]);
    let mut dirty = Rect { left: 0, right: 0, top: 0, bottom: 0 };
    c.restore(&mut g, &mut dirty);
    assert_eq!(dirty, Rect { left: -3, right: 0, top: 1, bottom: 0 });
    assert!(g.get_tile(GridPos::new(0, 0)).is_some());
}
