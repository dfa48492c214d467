use protos::slow_unit::{Ground, GroundMaterial, GroundMaterials};
use protos::sparse_grid::GridPos;

#[test]
fn old_ground_new_is_grass() {
    let g = Ground::new(4);
    assert_eq!(g.width(), 4);
    assert_eq!(g.get_tile(GridPos::new(3, 3)).unwrap().nav_cost, 32);
    assert_eq!(g.nav_grid().get(GridPos::new(3, 3)), Some(&32));
    assert!(g.get_tile(GridPos::new(4, 0)).is_none());
}

#[test]
fn old_ground_set_tile_grows_both_grids() {
    let mut g = Ground::new(2);
    let road = GroundMaterials::Road.to_material_ref().unwrap();
    g.set_tile(GridPos::new(3, 1), road);
    assert_eq!(g.get_tile(GridPos::new(3, 1)).unwrap().nav_cost, 1);
    assert_eq!(g.nav_grid().get(GridPos::new(3, 1)), Some(&1));
    assert_eq!(g.nav_grid().values.len(), 8);
    // the cells added on the way hold nothing
    assert!(g.get_tile(GridPos::new(2, 0)).is_none());
    assert!(g.get_tile_ref(GridPos::new(3, 1)).is_some());
}

#[test]
fn old_ground_clear_and_register() {
    let mut g = Ground::new(3);
    g.clear_tile(GridPos::new(1, 1));
    assert!(g.get_tile(GridPos::new(1, 1)).is_none());
    assert!(g.nav_grid().get(GridPos::new(1, 1)).is_none());
    let mud = g.register_ground_material(GroundMaterial { color: [1, 2, 3, 4], nav_cost: 7 });
    g.set_tile(GridPos::new(1, 1), mud);
    assert_eq!(g.nav_grid().get(GridPos::new(1, 1)), Some(&7));
    assert!(GroundMaterials::Nothing.to_material_ref().is_none());
}

#[test]
fn old_ground_draws_every_tile() {
    let mut g = Ground::new(2);
    assert!(g.needs_redraw());
    g.clear_tile(GridPos::new(1, 0));
    let road = GroundMaterials::Road.to_material_ref().unwrap();
    g.set_tile(GridPos::new(0, 1), road);
    let mut data = vec![9u8; 16];
    g.write_pixels(&mut data);
    assert!(!g.needs_redraw());
    // pixel (x, y) sits at byte 4 * (y * 2 + x)
    assert_eq!(&data[0..4], &[76, 127, 76, 255]);
    assert_eq!(&data[4..8], &[0, 0, 0, 255]);
    assert_eq!(&data[8..12], &[204, 178, 127, 255]);
    assert_eq!(&data[12..16], &[76, 127, 76, 255]);
}
