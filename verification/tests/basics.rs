use shade_octree::basics::{count_octrees_below, get_child_pos, get_unique_index, select};
use shade_octree::compute::{calculate_current_size, calculate_full_depth, calculate_max_voxel};
use shade_octree::vec3::UVec3;
use std::collections::HashSet;

fn test_dim(dim: u32) {
    let parent_depth = dim;
    let mut positions = HashSet::new();

    for parent_x in 0..1 << parent_depth {
        for parent_y in 0..1 << parent_depth {
            for parent_z in 0..1 << parent_depth {
                let parent_pos = UVec3::new(parent_x, parent_y, parent_z);
                for child_x in 0..2 {
                    for child_y in 0..2 {
                        for child_z in 0..2 {
                            let child_rel_pos = UVec3::new(child_x, child_y, child_z);
                            let child_pos = get_child_pos(&parent_pos, &child_rel_pos);

                            assert!(child_pos.x < (1 << (parent_depth + 1)));
                            assert!(child_pos.y < (1 << (parent_depth + 1)));
                            assert!(child_pos.z < (1 << (parent_depth + 1)));
                            assert!(positions.insert(child_pos));
                        }
                    }
                }
            }
        }
    }

    assert_eq!(
        positions.len(),
        ((1 << (parent_depth + 1)) as f32).powf(3.0) as usize
    );
}

fn test_dim_index(dim: u32) {
    let parent_depth = dim;
    let mut indices = HashSet::new();

    for parent_x in 0..1 << parent_depth {
        for parent_y in 0..1 << parent_depth {
            for parent_z in 0..1 << parent_depth {
                let parent_pos = UVec3::new(parent_x, parent_y, parent_z);
                for child_x in 0..2 {
                    for child_y in 0..2 {
                        for child_z in 0..2 {
                            let child_rel_pos = UVec3::new(child_x, child_y, child_z);
                            let child_pos = get_child_pos(&parent_pos, &child_rel_pos);

                            assert!(child_pos.x < (1 << (parent_depth + 1)));
                            assert!(child_pos.y < (1 << (parent_depth + 1)));
                            assert!(child_pos.z < (1 << (parent_depth + 1)));

                            let index = get_unique_index(&child_pos, parent_depth + 1);

                            println!("index: {}, pos: {:?}", index, child_pos);

                            assert!(indices.insert(index));
                        }
                    }
                }
            }
        }
    }

    assert_eq!(
        indices.len(),
        ((1 << (parent_depth + 1)) as f32).powf(3.0) as usize
    );
}

fn test_dim_index_rec(i: u32) {
    let mut indices = HashSet::new();

    for dim in 0..i + 1 {
        let parent_depth = dim;

        for parent_x in 0..1 << parent_depth {
            for parent_y in 0..1 << parent_depth {
                for parent_z in 0..1 << parent_depth {
                    let parent_pos = UVec3::new(parent_x, parent_y, parent_z);

                    assert!(parent_pos.x < (1 << (parent_depth)));
                    assert!(parent_pos.y < (1 << (parent_depth)));
                    assert!(parent_pos.z < (1 << (parent_depth)));

                    let id_bel = count_octrees_below(parent_depth, i);
                    let index = get_unique_index(&parent_pos, parent_depth);

                    println!(
                        "depth: {}, index: {}, pos: {:?}, count: {:?}",
                        dim, index, parent_pos, id_bel
                    );

                    assert!(indices.insert(id_bel + index));
                }
            }
        }
    }

    assert_eq!(indices.len(), calculate_full_depth(i) as usize);
}

fn assert_eq_print(i: u32, x: u32) {
    println!("actual: {}, expected: {}", i, x);
    assert!(i == x);
}

#[test]
fn basics_test_uniqueness_at_depth_1() {
    test_dim(1);
    test_dim_index(1);
    test_dim_index_rec(1);
}

#[test]
fn basics_test_uniqueness_at_depth_2() {
    test_dim(2);
    test_dim_index(2);
    test_dim_index_rec(2);
}

#[test]
fn basics_test_uniqueness_at_depth_3() {
    test_dim(3);
    test_dim_index(3);
    test_dim_index_rec(3);
}

#[test]
fn test_uniqueness_at_depth_4() {
    test_dim(4);
    test_dim_index(4);
    test_dim_index_rec(4);
}

#[test]
fn lib_test_uniqueness_at_depth_1() {
    test_dim(1);
    test_dim_index(1);
}

#[test]
fn lib_test_uniqueness_at_depth_2() {
    test_dim(2);
    test_dim_index(2);
}

#[test]
fn lib_test_uniqueness_at_depth_3() {
    test_dim(3);
    test_dim_index(3);
}

#[test]
fn test_dimension_indexes() {
    assert_eq_print(count_octrees_below(2, 2), 0);
    assert_eq_print(count_octrees_below(1, 2), 64);
    assert_eq_print(count_octrees_below(0, 2), 72);

    assert_eq_print(count_octrees_below(3, 3), 0);
    assert_eq_print(count_octrees_below(2, 3), 512);
    assert_eq_print(count_octrees_below(1, 3), 576);
    assert_eq_print(count_octrees_below(0, 3), 584);
}

#[test]
fn test_voxel() {
    assert_eq_print(calculate_max_voxel(1), 64);
    assert_eq_print(calculate_max_voxel(2), 512);
}

#[test]
fn count_below_is_zero_at_or_past_the_finest_level() {
    assert_eq!(count_octrees_below(4, 4), 0);
    assert_eq!(count_octrees_below(5, 2), 0);
    assert_eq!(count_octrees_below(9, 0), 0);
}

#[test]
fn count_below_largest_inputs() {
    // 8^1 + ... + 8^9
    assert_eq!(count_octrees_below(0, 9), 153391688);
    assert_eq!(count_octrees_below(8, 9), 134217728);
}

#[test]
fn full_depth_values() {
    assert_eq!(calculate_full_depth(0), 1);
    assert_eq!(calculate_full_depth(1), 9);
    assert_eq!(calculate_full_depth(2), 73);
    assert_eq!(calculate_full_depth(3), 585);
    assert_eq!(calculate_full_depth(10), 1227133513);
    assert_eq!(calculate_full_depth(11), u32::MAX);
    assert_eq!(calculate_full_depth(u32::MAX - 1), u32::MAX);
}

#[test]
fn full_depth_is_finer_count_plus_root() {
    for i in 0..10 {
        assert_eq!(calculate_full_depth(i), count_octrees_below(0, i) + 1);
    }
}

#[test]
fn max_voxel_values() {
    assert_eq!(calculate_max_voxel(0), 8);
    assert_eq!(calculate_max_voxel(9), 1 << 30);
    assert_eq!(calculate_max_voxel(10), u32::MAX);
    assert_eq!(calculate_max_voxel(u32::MAX), u32::MAX);
}

#[test]
fn current_size_values() {
    assert_eq!(calculate_current_size(0), 1);
    assert_eq!(calculate_current_size(1), 2);
    assert_eq!(calculate_current_size(3), 8);
    assert_eq!(calculate_current_size(31), 1 << 31);
    assert_eq!(calculate_current_size(32), u32::MAX);
    assert_eq!(calculate_current_size(u32::MAX), u32::MAX);
}

#[test]
fn child_pos_value() {
    let child = get_child_pos(&UVec3::new(3, 0, 7), &UVec3::new(1, 0, 1));
    assert_eq!(child, UVec3::new(7, 0, 15));
}

#[test]
fn every_cell_has_one_parent() {
    // Level 2 cells come from exactly one (parent, offset) pair of level 1.
    let mut seen = HashSet::new();
    for x in 0..2u32 {
        for y in 0..2u32 {
            for z in 0..2u32 {
                for rx in 0..2u32 {
                    for ry in 0..2u32 {
                        for rz in 0..2u32 {
                            let c = get_child_pos(&UVec3::new(x, y, z), &UVec3::new(rx, ry, rz));
                            assert_eq!(c, UVec3::new(2 * x + rx, 2 * y + ry, 2 * z + rz));
                            assert!(seen.insert(c));
                        }
                    }
                }
            }
        }
    }
    assert_eq!(seen.len(), 64);
}

#[test]
fn unique_index_values() {
    assert_eq!(get_unique_index(&UVec3::new(1, 2, 3), 2), 1 + 2 * 4 + 3 * 16);
    assert_eq!(get_unique_index(&UVec3::new(0, 0, 0), 31), 0);
    assert_eq!(get_unique_index(&UVec3::new(5, 0, 0), 0), 5);
    assert_eq!(get_unique_index(&UVec3::new(7, 7, 7), 3), 511);
}

#[test]
fn layout_fills_the_buffer_exactly() {
    // For depth 2 the slots of all cells of all levels are 0..73.
    let i = 2;
    let mut slots = Vec::new();
    for d in 0..=i {
        let side = 1u32 << d;
        for x in 0..side {
            for y in 0..side {
                for z in 0..side {
                    slots.push(count_octrees_below(d, i) + get_unique_index(&UVec3::new(x, y, z), d));
                }
            }
        }
    }
    slots.sort();
    let expected: Vec<u32> = (0..calculate_full_depth(i)).collect();
    assert_eq!(slots, expected);
}

#[test]
fn select_picks_by_condition() {
    assert_eq!(select(1, 2, true), 1);
    assert_eq!(select(1, 2, false), 2);
    assert_eq!(select("a", "b", false), "b");
}
