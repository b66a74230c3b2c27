use kingdom_server::rng::seeded_rng;
use kingdom_server::terrain::{place_river_segments, scatter_deep_terrain, spread_mountains};
use kingdom_server::terrain::{
    neighbors4, random_level_grid, TERRAIN_LEVEL_ALPINE, TERRAIN_LEVEL_DEEP, TERRAIN_LEVEL_DEMON,
    TERRAIN_LEVEL_MOUNTAIN, TERRAIN_LEVEL_PERIL, TERRAIN_LEVEL_RIVER,
};
use kingdom_server::territory::{get_territory_index, RuinInfo, WorldConfig};
use kingdom_server::world::{
    apply_home_safe_zone_levels, can_place_home_with_safe_zone, generate_territories,
    home_safe_zone_territory_ids, safe_zone_level_for_tile,
};

fn test_world() -> WorldConfig {
    WorldConfig { cols: 12, rows: 12, home_col: 6, home_row: 6, terrain_seed: 42 }
}

fn count_level(grid: &[Vec<u8>], level: u8) -> usize {
    grid.iter().flat_map(|row| row.iter()).filter(|&&cell| cell == level).count()
}

fn horizontal_river_run(grid: &[Vec<u8>], row: usize, col: usize) -> usize {
    if grid[row][col] != TERRAIN_LEVEL_RIVER {
        return 0;
    }
    let mut start = col;
    while start > 0 && grid[row][start - 1] == TERRAIN_LEVEL_RIVER {
        start -= 1;
    }
    let mut end = col;
    let cols = grid[row].len();
    while end + 1 < cols && grid[row][end + 1] == TERRAIN_LEVEL_RIVER {
        end += 1;
    }
    end - start + 1
}

fn vertical_river_run(grid: &[Vec<u8>], row: usize, col: usize) -> usize {
    if grid[row][col] != TERRAIN_LEVEL_RIVER {
        return 0;
    }
    let mut start = row;
    while start > 0 && grid[start - 1][col] == TERRAIN_LEVEL_RIVER {
        start -= 1;
    }
    let mut end = row;
    let rows = grid.len();
    while end + 1 < rows && grid[end + 1][col] == TERRAIN_LEVEL_RIVER {
        end += 1;
    }
    end - start + 1
}

fn assert_river_segments_valid(grid: &[Vec<u8>]) {
    let rows = grid.len();
    let cols = grid[0].len();
    let mut visited = vec![vec![false; cols]; rows];
    for row in 0..rows {
        for col in 0..cols {
            if grid[row][col] != TERRAIN_LEVEL_RIVER || visited[row][col] {
                continue;
            }
            let mut component = Vec::new();
            let mut stack = vec![(row, col)];
            while let Some((r, c)) = stack.pop() {
                if visited[r][c] || grid[r][c] != TERRAIN_LEVEL_RIVER {
                    continue;
                }
                visited[r][c] = true;
                component.push((r, c));
                for (nr, nc) in neighbors4(r, c, rows, cols) {
                    if grid[nr][nc] == TERRAIN_LEVEL_RIVER && !visited[nr][nc] {
                        stack.push((nr, nc));
                    }
                }
            }
            assert_eq!(component.len(), 3, "river component size {} at ({col},{row})", component.len());
            let h = horizontal_river_run(grid, row, col);
            let v = vertical_river_run(grid, row, col);
            assert!(h == 3 || v == 3, "river component at ({col},{row}) not straight-3 (h={h}, v={v})");
        }
    }
}

#[test]
fn same_seed_produces_identical_grid() {
    let a = random_level_grid(48, 48, 12345);
    let b = random_level_grid(48, 48, 12345);
    assert_eq!(a, b);
}

#[test]
fn different_seed_produces_different_grid() {
    let a = random_level_grid(48, 48, 1);
    let b = random_level_grid(48, 48, 2);
    assert_ne!(a, b);
}

#[test]
fn river_segments_are_three_connected() {
    for seed in [1u64, 42, 999, 12345] {
        let grid = random_level_grid(48, 48, seed);
        assert_river_segments_valid(&grid);
    }
}

#[test]
fn higher_levels_are_rarer() {
    let grid = random_level_grid(48, 48, 42);
    let lv1 = count_level(&grid, 1);
    let lv6 = count_level(&grid, TERRAIN_LEVEL_MOUNTAIN);
    let lv7 = count_level(&grid, TERRAIN_LEVEL_PERIL);
    let lv9 = count_level(&grid, TERRAIN_LEVEL_DEEP);
    assert!(lv1 > lv6, "lv1={lv1} should exceed lv6={lv6}");
    assert!(lv6 > lv7, "lv6={lv6} should exceed lv7={lv7}");
    assert!(lv7 > lv9, "lv7={lv7} should exceed lv9 deep={lv9}");
}

#[test]
fn mountains_cluster_more_than_random() {
    let grid = random_level_grid(48, 48, 42);
    let mut lv6_with_adjacent = 0usize;
    let mut lv6_total = 0usize;
    let rows = grid.len();
    let cols = grid[0].len();
    for row in 0..rows {
        for col in 0..cols {
            if grid[row][col] != TERRAIN_LEVEL_MOUNTAIN {
                continue;
            }
            lv6_total += 1;
            let has_adjacent_lv6 = neighbors4(row, col, rows, cols)
                .iter()
                .any(|&(r, c)| grid[r][c] == TERRAIN_LEVEL_MOUNTAIN);
            if has_adjacent_lv6 {
                lv6_with_adjacent += 1;
            }
        }
    }
    if lv6_total == 0 {
        return;
    }
    let rate = lv6_with_adjacent as f64 / lv6_total as f64;
    assert!(rate > 0.15, "lv6 mountain adjacency rate {rate} should show clustering (total={lv6_total})");
}

#[test]
fn terrain_distribution_is_sane_for_new_generator() {
    let grid = random_level_grid(48, 48, 42);
    let mut counts = [0usize; 10];
    for row in &grid {
        for &cell in row {
            counts[cell as usize] += 1;
        }
    }
    let total = 48 * 48;
    let low = counts[1] + counts[2] + counts[3];
    let lv1 = counts[1];
    let lv4 = counts[TERRAIN_LEVEL_RIVER as usize];
    let lv5 = counts[TERRAIN_LEVEL_ALPINE as usize];
    let lv6 = counts[TERRAIN_LEVEL_MOUNTAIN as usize];
    let lv7 = counts[TERRAIN_LEVEL_PERIL as usize];
    let lv8 = counts[TERRAIN_LEVEL_DEMON as usize];
    let lv9 = counts[TERRAIN_LEVEL_DEEP as usize];
    assert!(lv5 > 0, "lv5 alpine={lv5} should appear around mountain clusters");
    assert!(lv6 > 0, "lv6 mountain={lv6} should appear from forest seeds");
    assert!(lv5 > lv6, "lv5 alpine ring={lv5} should exceed lv6 cores={lv6}");
    assert!(low * 100 < total * 95, "lv1-3={low} should stay below 95%");
    assert!(lv4 > lv6, "lv4 rivers={lv4} should exceed lv6 mountains={lv6}");
    assert!(lv1 > lv6, "lv1={lv1} lv6={lv6}");
    assert!(lv7 > lv8, "lv7={lv7} should exceed lv8={lv8}");
    assert!(lv8 > lv9, "lv8={lv8} should exceed lv9 deep={lv9}");
    assert!(lv9 >= 2, "lv9 deep={lv9} should appear on 48x48");
    assert!(lv9 < 40, "lv9 deep={lv9} should stay rare");
    assert!(lv7 < 120, "lv7={lv7} should stay uncommon");
    assert!(lv4 >= 60, "lv4={lv4} should have enough river tiles");
    assert!(lv4 < 220, "lv4={lv4} from 3-tile segments");
    assert_river_segments_valid(&grid);
}

#[test]
fn apply_home_safe_zone_sets_levels_one_or_two() {
    let world = test_world();
    let territories = generate_territories(&world, "player_a", None, None);
    let home_idx = get_territory_index(&territories, "c_6_6").unwrap();
    assert_eq!(territories[home_idx].level, 1);
    for tile_id in home_safe_zone_territory_ids(world.home_col, world.home_row, &world) {
        let idx = get_territory_index(&territories, &tile_id).unwrap();
        let t = &territories[idx];
        if t.owner_id.is_none() && t.ruin.is_none() {
            assert!(t.level == 1 || t.level == 2, "tile {tile_id} level {}", t.level);
        }
    }
}

#[test]
fn can_place_home_rejects_neighbor_owned_by_other() {
    let world = test_world();
    let mut territories = generate_territories(&world, "player_a", None, None);
    let neighbor_id = "c_7_6";
    let idx = get_territory_index(&territories, neighbor_id).unwrap();
    territories[idx].owner_id = Some("player_b".to_string());
    assert!(!can_place_home_with_safe_zone(&territories, "c_8_6", "player_c", &world));
}

#[test]
fn safe_zone_levels_are_deterministic() {
    let home_id = "c_6_6";
    let tile_id = "c_7_6";
    assert_eq!(safe_zone_level_for_tile(home_id, tile_id), safe_zone_level_for_tile(home_id, tile_id));
}

#[test]
fn apply_home_safe_zone_skips_ruins() {
    let world = test_world();
    let mut territories = generate_territories(&world, "player_a", None, None);
    let ruin_id = "c_7_6";
    let idx = get_territory_index(&territories, ruin_id).unwrap();
    let before = territories[idx].level;
    territories[idx].ruin = Some(RuinInfo { territory_id: ruin_id.to_string() });
    apply_home_safe_zone_levels(&mut territories, world.home_col, world.home_row, &world);
    assert_eq!(territories[idx].level, before);
}

#[test]
fn generate_territories_applies_safe_zone_on_init() {
    let world = test_world();
    let territories = generate_territories(&world, "solo", None, None);
    let zone_id = "c_6_7";
    let idx = get_territory_index(&territories, zone_id).unwrap();
    assert!(territories[idx].level == 1 || territories[idx].level == 2);
}

#[test]
fn safe_zone_ids_surround_home_in_row_order() {
    let world = test_world();
    let ids = home_safe_zone_territory_ids(6, 6, &world);
    assert_eq!(ids.len(), 12);
    assert_eq!(ids[0], "c_6_4");
    assert!(!ids.iter().any(|id| id == "c_6_6"));
    assert_eq!(ids[ids.len() - 1], "c_6_8");
}

#[test]
fn generated_map_has_every_tile_once() {
    let world = test_world();
    let territories = generate_territories(&world, "solo", None, None);
    assert_eq!(territories.len(), 144);
    assert_eq!(territories[0].id, "c_0_0");
    assert_eq!(territories[13].id, "c_1_1");
    let home = &territories[get_territory_index(&territories, "c_6_6").unwrap()];
    assert_eq!(home.owner_id.as_deref(), Some("solo"));
    assert!(home.is_base);
    assert_eq!(home.troops, 10);
}

#[test]
fn terrain_phases_change_only_what_they_may() {
    for seed in 0..20u64 {
        let mut rng = seeded_rng(seed);
        // Without forest no mountain grows.
        let mut plain = vec![vec![1u8; 12]; 12];
        spread_mountains(&mut plain, 12, 12, &mut rng);
        assert!(plain.iter().all(|row| row.iter().all(|&l| l == 1)));
        // Mountains and alpine never turn river, deep patches never land on them.
        let mut high = vec![vec![6u8, 5u8]; 12];
        place_river_segments(&mut high, 2, 12, &mut rng);
        scatter_deep_terrain(&mut high, 2, 12, &mut rng);
        assert!(high.iter().all(|row| row == &vec![6u8, 5u8]));
        // Forest tiles turn mountain or alpine, or stay.
        let mut forest = vec![vec![3u8; 12]; 12];
        spread_mountains(&mut forest, 12, 12, &mut rng);
        assert!(forest.iter().all(|row| row.iter().all(|&l| l == 3 || l == 5 || l == 6)));
        // Deep patches are 7 to 9.
        let mut low = vec![vec![2u8; 40]; 40];
        scatter_deep_terrain(&mut low, 40, 40, &mut rng);
        assert!(low.iter().all(|row| row.iter().all(|&l| l == 2 || (7..=9).contains(&l))));
    }
}

#[test]
fn a_home_goes_only_on_a_neutral_tile() {
    let world = test_world();
    let mut territories = generate_territories(&world, "player_a", None, None);
    let far = "c_10_10";
    let idx = get_territory_index(&territories, far).unwrap();
    territories[idx].ruin = None;
    territories[idx].owner_id = None;
    assert!(can_place_home_with_safe_zone(&territories, far, "player_c", &world));
    territories[idx].owner_id = Some("player_c".to_string());
    assert!(!can_place_home_with_safe_zone(&territories, far, "player_c", &world));
}

#[test]
fn adjacency_uses_the_full_coordinates() {
    assert!(kingdom_server::grid::territories_are_adjacent("c_1_0", "c_0_0"));
    assert!(!kingdom_server::grid::territories_are_adjacent("c_65537_0", "c_0_0"));
    assert!(!kingdom_server::grid::territories_are_adjacent("c_0_65536", "c_0_0"));
    assert!(!kingdom_server::grid::territories_are_adjacent("c_1_1", "c_0_0"));
}

#[test]
fn every_card_is_found_by_its_name() {
    for id in 0..300u32 {
        if let Some(c) = kingdom_server::cards::get_card(id) {
            let found = kingdom_server::cards::get_card_id_by_name(c.name).unwrap();
            assert_eq!(kingdom_server::cards::get_card(found).unwrap().name, c.name);
        }
    }
    assert_eq!(kingdom_server::cards::get_card_id_by_name("ゴブリンA"), Some(10));
    assert_eq!(kingdom_server::cards::get_card_id_by_name("unknown"), None);
}

