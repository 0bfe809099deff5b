use colony_sim::colony::{
    deforest, mining_target, next_quarry_stage, spoil_food, spoilage_due, tally_deposits,
    track_population, PopulationUpdate,
};
use colony_sim::dirty::DirtyMap;
use colony_sim::palette::Season;
use colony_sim::tilemap::{Terrain, TileMap};
use colony_sim::visuals::ResourceType;

#[test]
fn winter_spoilage_is_one_or_two() {
    assert!(spoilage_due(Season::Winter, 60, 5));
    assert!(!spoilage_due(Season::Winter, 61, 5));
    assert!(!spoilage_due(Season::Autumn, 60, 5));
    assert!(!spoilage_due(Season::Winter, 60, 0));
    assert_eq!(spoil_food(1), (0, 1));
    assert_eq!(spoil_food(80), (79, 1));
    assert_eq!(spoil_food(100), (98, 2));
    assert_eq!(spoil_food(5000), (4998, 2));
    assert_eq!(spoil_food(u32::MAX), (u32::MAX - 2, 2));
}

#[test]
fn population_peak_and_game_over() {
    assert_eq!(track_population(4, 4, 6), PopulationUpdate { peak: 6, game_over: false });
    assert_eq!(track_population(9, 6, 5), PopulationUpdate { peak: 9, game_over: false });
    assert_eq!(track_population(9, 1, 0), PopulationUpdate { peak: 9, game_over: true });
    assert_eq!(track_population(9, 0, 0), PopulationUpdate { peak: 9, game_over: false });
}

#[test]
fn deposits_counted_by_kind() {
    let d = vec![ResourceType::Wood, ResourceType::Food, ResourceType::Wood, ResourceType::Planks, ResourceType::Stone];
    assert_eq!(tally_deposits(&d), (1, 2, 1));
    assert_eq!(tally_deposits(&Vec::new()), (0, 0, 0));
}

#[test]
fn harvested_forest_becomes_stump() {
    let mut map = TileMap::new(4, 4, Terrain::Forest);
    map.set(1, 1, Terrain::Grass);
    let mut dirty = DirtyMap::new(4, 4);
    dirty.clear();
    assert!(deforest(&mut map, &mut dirty, 2, 3));
    assert_eq!(map.get(2, 3), Some(&Terrain::Stump));
    assert!(dirty.is_dirty(2, 3));
    assert!(!deforest(&mut map, &mut dirty, 1, 1));
    assert!(!deforest(&mut map, &mut dirty, 2, 3));
    assert!(!deforest(&mut map, &mut dirty, 9, 9));
    assert!(!dirty.is_dirty(1, 1));
}

#[test]
fn quarry_stages() {
    assert_eq!(next_quarry_stage(Terrain::Mountain, 5), None);
    assert_eq!(next_quarry_stage(Terrain::Mountain, 6), Some(Terrain::Quarry));
    assert_eq!(next_quarry_stage(Terrain::Quarry, 6), None);
    assert_eq!(next_quarry_stage(Terrain::Quarry, 12), Some(Terrain::QuarryDeep));
    assert_eq!(next_quarry_stage(Terrain::Mountain, 30), Some(Terrain::QuarryDeep));
}

#[test]
fn mining_target_prefers_below_then_above_right_left() {
    let mut map = TileMap::new(5, 5, Terrain::Grass);
    map.set(3, 2, Terrain::Mountain);
    map.set(1, 2, Terrain::Quarry);
    assert_eq!(mining_target(&map, 2, 2), Some((3, 2)));
    map.set(2, 1, Terrain::Quarry);
    assert_eq!(mining_target(&map, 2, 2), Some((2, 1)));
    map.set(2, 3, Terrain::Mountain);
    assert_eq!(mining_target(&map, 2, 2), Some((2, 3)));
    assert_eq!(mining_target(&map, 0, 0), None);
    // off the map to the left and above
    map.set(0, 1, Terrain::Mountain);
    assert_eq!(mining_target(&map, 0, 0), Some((0, 1)));
}
