use shade_octree::octree::{octree_cell_occupied, valid_octree_pos};
use shade_octree::shaders::{OCTree, Voxel};
use shade_octree::vec3::IVec3;

#[test]
fn valid_positions_inside_level() {
    assert!(valid_octree_pos(IVec3::new(0, 0, 0), 0));
    assert!(!valid_octree_pos(IVec3::new(1, 0, 0), 0));
    assert!(valid_octree_pos(IVec3::new(3, 2, 1), 2));
    assert!(!valid_octree_pos(IVec3::new(4, 2, 1), 2));
    assert!(!valid_octree_pos(IVec3::new(0, -1, 0), 2));
    assert!(!valid_octree_pos(IVec3::new(0, 0, -5), 3));
    assert!(valid_octree_pos(IVec3::new(0, 0, (1 << 30) - 1), 30));
}

#[test]
fn no_position_fits_level_31() {
    assert!(!valid_octree_pos(IVec3::new(0, 0, 0), 31));
    assert!(!valid_octree_pos(IVec3::new(i32::MAX, 1, 2), 31));
}

#[test]
fn occupied_cells_are_found_in_their_level() {
    // Depth 1: level 1 occupies slots 0..8, level 0 slot 8.
    let mut octrees = vec![OCTree::default(); 9];
    octrees[1 + 1 * 2 + 0 * 4].mask = 3; // cell (1, 1, 0) of level 1
    octrees[8].mask = 1; // the root
    assert!(octree_cell_occupied(IVec3::new(1, 1, 0), 1, 0, &octrees));
    assert!(!octree_cell_occupied(IVec3::new(0, 1, 1), 1, 0, &octrees));
    assert!(!octree_cell_occupied(IVec3::new(2, 0, 0), 1, 0, &octrees));
    assert!(!octree_cell_occupied(IVec3::new(-1, 1, 0), 1, 0, &octrees));
    assert!(octree_cell_occupied(IVec3::new(0, 0, 0), 0, 8, &octrees));
}

#[test]
fn records_hold_their_fields() {
    let v = Voxel { col: 0xff00ff, mat: 2 };
    assert_eq!(v.col, 0xff00ff);
    assert_eq!(v.mat, 2);
    assert_eq!(OCTree::default().mask, 0);
}
