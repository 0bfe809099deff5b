use colony_sim::settlement::{find_building_spot, find_start_site};
use colony_sim::tilemap::{Terrain, TileMap};
use colony_sim::sites::pick_resource_sites;

#[test]
fn building_spot_at_center_when_open() {
    let map = TileMap::new(20, 20, Terrain::Grass);
    assert_eq!(find_building_spot(&map, 10, 10, 2, 2), (10, 10));
}

#[test]
fn building_spot_keeps_a_gap_from_buildings() {
    let mut map = TileMap::new(20, 20, Terrain::Grass);
    map.set(10, 10, Terrain::BuildingFloor);
    // every spot of rings 0 and 1 touches the floor tile or its border; the
    // first spot of ring 2 in search order that clears it is (12, 8)
    assert_eq!(find_building_spot(&map, 10, 10, 2, 2), (12, 8));
}

#[test]
fn building_spot_falls_back_to_forest_then_center() {
    let forest = TileMap::new(20, 20, Terrain::Forest);
    assert_eq!(find_building_spot(&forest, 10, 10, 3, 2), (10, 10));
    let water = TileMap::new(20, 20, Terrain::Water);
    assert_eq!(find_building_spot(&water, 10, 10, 2, 2), (10, 10));
}

#[test]
fn start_site_near_forest() {
    let mut map = TileMap::new(60, 60, Terrain::Grass);
    map.set(40, 30, Terrain::Forest);
    assert_eq!(find_start_site(&map), (37, 27, false));
}

#[test]
fn start_site_without_forest_uses_fallback() {
    let map = TileMap::new(60, 60, Terrain::Grass);
    assert_eq!(find_start_site(&map), (30, 30, true));
    let sea = TileMap::new(60, 60, Terrain::Water);
    assert_eq!(find_start_site(&sea), (30, 30, false));
}

#[test]
fn start_site_prefers_fords() {
    let mut map = TileMap::new(80, 80, Terrain::Grass);
    map.set(50, 40, Terrain::Forest);
    map.set(20, 40, Terrain::Forest);
    map.set(15, 40, Terrain::Ford);
    // the forest at (20, 40) is reached first from the west side of ring 7,
    // but only the one near the ford qualifies in the first search
    let (x, y, planted) = find_start_site(&map);
    assert!(!planted);
    assert!((x as i64 - 20).abs() <= 3 && (y as i64 - 40).abs() <= 3);
}

#[test]
fn resource_sites_best_then_three_steps_away() {
    let (w, h) = (20usize, 20usize);
    let mut amount = vec![0u8; w * h];
    let walkable = vec![true; w * h];
    amount[10 * w + 12] = 5; // distance 2: score 25
    amount[10 * w + 13] = 9; // distance 3: score 30
    amount[11 * w + 13] = 9; // distance 4: score 22
    amount[4 * w + 10] = 9; // distance 6: score 15
    let sites = pick_resource_sites(&amount, &walkable, w, h, 10, 10, 8);
    // (12, 10) and (13, 11) are too close to the first pick
    assert_eq!(sites, vec![(13, 10), (10, 4)]);
}

#[test]
fn resource_sites_ties_go_to_the_first_scanned() {
    let (w, h) = (20usize, 20usize);
    let mut amount = vec![0u8; w * h];
    let walkable = vec![true; w * h];
    amount[12 * w + 10] = 4; // below the center, distance 2: score 20
    amount[8 * w + 10] = 4; // above the center, distance 2: score 20
    amount[10 * w + 8] = 4; // left of the center, distance 2: score 20
    let sites = pick_resource_sites(&amount, &walkable, w, h, 10, 10, 8);
    // rows are scanned from the top, each from the left
    assert_eq!(sites, vec![(10, 8), (8, 10)]);
}

#[test]
fn resource_sites_skip_unwalkable_and_far_tiles() {
    let (w, h) = (30usize, 30usize);
    let mut amount = vec![0u8; w * h];
    let mut walkable = vec![true; w * h];
    amount[10 * w + 11] = 50; // the best, but not walkable
    walkable[10 * w + 11] = false;
    amount[10 * w + 19] = 50; // outside the window of radius 8
    amount[10 * w + 10] = 3; // the center itself: distance taken as 1, score 30
    let sites = pick_resource_sites(&amount, &walkable, w, h, 10, 10, 8);
    assert_eq!(sites, vec![(10, 10)]);
    let none = pick_resource_sites(&vec![0u8; w * h], &walkable, w, h, 10, 10, 8);
    assert!(none.is_empty());
}
