use roguelike::map::apply_horizontal_tunnel;
use roguelike::map::apply_vertical_tunnel;
use roguelike::map::filled_map;
use roguelike::map::new_map_test;
use roguelike::map::scatter_walls;
use roguelike::map::xy_idx;
use roguelike::map::TileType;
use rltk::RandomNumberGenerator;

#[test]
fn xy_idx_formula() {
    assert_eq!(xy_idx(0, 0), 0);
    assert_eq!(xy_idx(79, 0), 79);
    assert_eq!(xy_idx(0, 1), 80);
    assert_eq!(xy_idx(79, 49), 3999);
    assert_eq!(xy_idx(40, 25), 2040);
    assert_eq!(xy_idx(1, 1), 81);
}

#[test]
fn xy_idx_injective_over_domain() {
    let mut seen = vec![false; 4000];
    for y in 0..50 {
        for x in 0..80 {
            let idx = xy_idx(x, y);
            assert!(idx < 4000);
            assert!(!seen[idx], "index {} hit twice", idx);
            seen[idx] = true;
        }
    }
    assert!(seen.iter().all(|&s| s));
}

#[test]
fn horizontal_tunnel_carves_row() {
    let mut map = filled_map(TileType::Wall);
    apply_horizontal_tunnel(&mut map, 5, 10, 3);
    for x in 5..=10 {
        assert_eq!(map[xy_idx(x, 3)], TileType::Floor);
    }
    assert_eq!(map[xy_idx(4, 3)], TileType::Wall);
    assert_eq!(map[xy_idx(11, 3)], TileType::Wall);
    assert_eq!(map.len(), 4000);
}

#[test]
fn horizontal_tunnel_skips_index_zero() {
    let mut map = filled_map(TileType::Wall);
    apply_horizontal_tunnel(&mut map, 0, 5, 0);
    assert_eq!(map[0], TileType::Wall);
    for x in 1..=5 {
        assert_eq!(map[xy_idx(x, 0)], TileType::Floor);
    }
}

#[test]
fn horizontal_tunnel_at_bottom_row_stays_in_bounds() {
    let mut map = filled_map(TileType::Wall);
    apply_horizontal_tunnel(&mut map, 0, 79, 49);
    assert_eq!(map.len(), 4000);
    for x in 0..=79 {
        assert_eq!(map[xy_idx(x, 49)], TileType::Floor);
    }
}

#[test]
fn horizontal_tunnel_ignores_cells_off_the_grid() {
    let mut map = filled_map(TileType::Wall);
    apply_horizontal_tunnel(&mut map, -5, 2, 0);
    assert_eq!(map.len(), 4000);
    assert_eq!(map[0], TileType::Wall);
    assert_eq!(map[xy_idx(1, 0)], TileType::Floor);
    assert_eq!(map[xy_idx(2, 0)], TileType::Floor);
    assert_eq!(map[xy_idx(3, 0)], TileType::Wall);
}

#[test]
fn vertical_tunnel_carves_column() {
    let mut map = filled_map(TileType::Wall);
    apply_vertical_tunnel(&mut map, 2, 7, 12);
    for y in 2..=7 {
        assert_eq!(map[xy_idx(12, y)], TileType::Floor);
    }
    assert_eq!(map[xy_idx(12, 1)], TileType::Wall);
    assert_eq!(map[xy_idx(12, 8)], TileType::Wall);
    assert_eq!(map[xy_idx(11, 5)], TileType::Wall);
    assert_eq!(map[xy_idx(13, 5)], TileType::Wall);
}

#[test]
fn vertical_tunnel_skips_index_zero() {
    let mut map = filled_map(TileType::Wall);
    apply_vertical_tunnel(&mut map, 0, 49, 0);
    assert_eq!(map.len(), 4000);
    assert_eq!(map[0], TileType::Wall);
    for y in 1..=49 {
        assert_eq!(map[xy_idx(0, y)], TileType::Floor);
    }
}

#[test]
fn vertical_tunnel_at_last_column_stays_in_bounds() {
    let mut map = filled_map(TileType::Wall);
    apply_vertical_tunnel(&mut map, 0, 49, 79);
    assert_eq!(map.len(), 4000);
    for y in 0..=49 {
        assert_eq!(map[xy_idx(79, y)], TileType::Floor);
    }
}

#[test]
fn test_map_has_solid_border_and_clear_spawn() {
    let mut rng = RandomNumberGenerator::seeded(7);
    let map = new_map_test(&mut rng);
    assert_eq!(map.len(), 4000);
    assert_eq!(map[xy_idx(0, 0)], TileType::Wall);
    assert_eq!(map[xy_idx(79, 49)], TileType::Wall);
    for x in 0..80 {
        assert_eq!(map[xy_idx(x, 0)], TileType::Wall);
        assert_eq!(map[xy_idx(x, 49)], TileType::Wall);
    }
    for y in 0..50 {
        assert_eq!(map[xy_idx(0, y)], TileType::Wall);
        assert_eq!(map[xy_idx(79, y)], TileType::Wall);
    }
    assert_eq!(map[xy_idx(40, 25)], TileType::Floor);
}

#[test]
fn test_map_spawn_clear_for_many_seeds() {
    for seed in 0..20u64 {
        let mut rng = RandomNumberGenerator::seeded(seed);
        let map = new_map_test(&mut rng);
        assert_eq!(map[xy_idx(40, 25)], TileType::Floor);
    }
}

#[test]
fn seeded_generation_is_reproducible() {
    let mut rng_a = RandomNumberGenerator::seeded(1234);
    let mut rng_b = RandomNumberGenerator::seeded(1234);
    let map_a = new_map_test(&mut rng_a);
    let map_b = new_map_test(&mut rng_b);
    assert_eq!(map_a, map_b);
}

#[test]
fn scatter_walls_sets_drawn_cells_and_spares_spawn() {
    let mut map = filled_map(TileType::Floor);
    let draws = vec![(5, 5), (40, 25), (78, 48)];
    scatter_walls(&mut map, &draws);
    assert_eq!(map[xy_idx(5, 5)], TileType::Wall);
    assert_eq!(map[xy_idx(78, 48)], TileType::Wall);
    assert_eq!(map[xy_idx(40, 25)], TileType::Floor);
    assert_eq!(map[xy_idx(6, 5)], TileType::Floor);
}

#[test]
fn test_map_interior_has_at_most_400_walls() {
    for seed in 0..5u64 {
        let mut rng = RandomNumberGenerator::seeded(seed);
        let map = new_map_test(&mut rng);
        let mut interior_walls = 0;
        for y in 1..49 {
            for x in 1..79 {
                if map[xy_idx(x, y)] == TileType::Wall {
                    interior_walls += 1;
                }
            }
        }
        assert!(interior_walls <= 400, "seed {}: {} walls", seed, interior_walls);
    }
}
