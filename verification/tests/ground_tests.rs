use protos::ai::ground::{Ground, GroundMaterial, GroundMaterials, Rect};
use protos::ai::sparse_grid::GridPos;

#[test]
fn ground_new_is_grass() {
    let g = Ground::new(8, 4);
    assert_eq!(g.width(), 8);
    assert_eq!(g.height(), 4);
    assert!(g.entity.is_none());
    let t = g.get_tile(GridPos::new(7, 3)).unwrap();
    assert_eq!(t.nav_cost, 32);
    assert_eq!(t.color, [76, 127, 76, 255]);
    assert_eq!(g.nav_grid().get(GridPos::new(0, 0)), Some(&32));
    assert!(g.get_tile(GridPos::new(8, 4)).is_none());
}

#[test]
fn material_refs() {
    assert!(GroundMaterials::Nothing.to_material_ref().is_none());
    let g = Ground::new(4, 4);
    let road = GroundMaterials::Road.to_material_ref().unwrap();
    let grass = GroundMaterials::Grass.to_material_ref().unwrap();
    let mut g2 = g.clone();
    g2.set_tile(GridPos::new(0, 0), road, false);
    g2.set_tile(GridPos::new(1, 0), grass, false);
    assert_eq!(g2.get_tile(GridPos::new(0, 0)).unwrap().nav_cost, 1);
    assert_eq!(g2.get_tile(GridPos::new(1, 0)).unwrap().nav_cost, 32);
    assert!(GroundMaterials::default() == GroundMaterials::Nothing);
}

#[test]
fn set_tile_updates_nav_cost_and_dirty() {
    let mut g = Ground::new(4, 4);
    let road = Ground::road();
    g.set_tile(GridPos::new(2, 1), road, true);
    assert_eq!(g.get_tile(GridPos::new(2, 1)).unwrap().nav_cost, 1);
    assert_eq!(g.nav_grid().get(GridPos::new(2, 1)), Some(&1));
    assert_eq!(g.nav_grid().get(GridPos::new(1, 2)), Some(&32));
    // the one-tile dirty area is drawn
    let mut data = vec![0u8; 4 * 4 * 4];
    g.write_dirty_pixels(&mut data);
    assert_eq!(&data[4 * (1 * 4 + 2)..4 * (1 * 4 + 2) + 4], &[204, 178, 127, 255]);
    // nothing else was drawn
    assert_eq!(data.iter().filter(|b| **b != 0).count(), 4);
    // the dirty areas are gone
    let mut data2 = vec![0u8; 64];
    g.write_dirty_pixels(&mut data2);
    assert!(data2.iter().all(|b| *b == 0));
}

#[test]
fn clear_tile_removes_tile_and_cost() {
    let mut g = Ground::new(4, 4);
    g.clear_tile(GridPos::new(3, 3), false);
    assert!(g.get_tile(GridPos::new(3, 3)).is_none());
    assert!(g.get_tile_ref(GridPos::new(3, 3)).is_none());
    assert!(g.nav_grid().get(GridPos::new(3, 3)).is_none());
    assert!(g.get_tile(GridPos::new(2, 3)).is_some());
    // a cleared tile is drawn black
    g.add_dirty_pos(3, 3);
    let mut data = vec![9u8; 64];
    g.write_dirty_pixels(&mut data);
    assert_eq!(&data[60..64], &[0, 0, 0, 255]);
    assert_eq!(data[59], 9);
}

#[test]
fn register_material() {
    let mut g = Ground::new(4, 4);
    let mud = g.register_ground_material(GroundMaterial { color: [90, 60, 30, 255], nav_cost: 100 });
    g.set_tile(GridPos::new(0, 0), mud, false);
    assert_eq!(g.get_tile(GridPos::new(0, 0)).unwrap().nav_cost, 100);
    assert_eq!(g.get_tile(GridPos::new(0, 0)).unwrap().color, [90, 60, 30, 255]);
    assert_eq!(g.nav_grid().get(GridPos::new(0, 0)), Some(&100));
}

#[test]
fn dirty_rect_is_drawn_row_by_row() {
    let mut g = Ground::new(4, 4);
    g.set_tile(GridPos::new(1, 1), Ground::road(), false);
    g.add_dirty_rect(Rect { left: 0, right: 2, top: 2, bottom: 1 });
    let mut data = vec![0u8; 64];
    g.write_dirty_pixels(&mut data);
    assert_eq!(&data[16..20], &[76, 127, 76, 255]);
    assert_eq!(&data[20..24], &[204, 178, 127, 255]);
    assert_eq!(data[24..].iter().filter(|b| **b != 0).count(), 0);
    assert_eq!(data[..16].iter().filter(|b| **b != 0).count(), 0);
}

#[test]
fn pixels_outside_the_image_are_skipped() {
    let mut g = Ground::new(4, 4);
    g.add_dirty_rect(Rect { left: -1, right: 1, top: 1, bottom: -1 });
    g.add_dirty_pos(3, 5);
    let mut data = vec![0u8; 8];
    g.write_dirty_pixels(&mut data);
    // only pixel (0, 0) and (1, 0) fit; (0, 0) is in the rectangle
    assert_eq!(&data[0..4], &[76, 127, 76, 255]);
    assert_eq!(&data[4..8], &[0, 0, 0, 0]);
}

#[test]
fn paint_square_sets_and_clears() {
    let mut g = Ground::new(8, 8);
    g.paint_square(GridPos::new(2, 3), 2, Some(Ground::road()));
    for (x, y) in [(2, 3), (3, 3), (2, 4), (3, 4)] {
        assert_eq!(g.get_tile(GridPos::new(x, y)).unwrap().nav_cost, 1);
    }
    assert_eq!(g.get_tile(GridPos::new(4, 3)).unwrap().nav_cost, 32);
    assert_eq!(g.get_tile(GridPos::new(2, 5)).unwrap().nav_cost, 32);
    g.paint_square(GridPos::new(3, 4), 3, None);
    assert!(g.get_tile(GridPos::new(3, 4)).is_none());
    assert!(g.get_tile(GridPos::new(5, 6)).is_none());
    assert_eq!(g.get_tile(GridPos::new(2, 4)).unwrap().nav_cost, 1);
    // every painted tile is redrawn
    let mut data = vec![1u8; 4 * 64];
    g.write_dirty_pixels(&mut data);
    let px = |x: usize, y: usize| data[4 * (y * 8 + x)..4 * (y * 8 + x) + 4].to_vec();
    assert_eq!(px(2, 3), vec![204, 178, 127, 255]);
    assert_eq!(px(3, 4), vec![0, 0, 0, 255]);
    assert_eq!(px(0, 0), vec![1, 1, 1, 1]);
}
