use colony_sim::dirty::DirtyMap;
use colony_sim::fire::{burn_down, ignite_tile, ignite_tile_with, is_new_fire, light_new_fires, scorch_tiles};
use colony_sim::tilemap::{Terrain, TileMap};

#[test]
fn ignition_sets_burning_and_tracks_timer() {
    let mut map = TileMap::new(8, 8, Terrain::Forest);
    let mut dirty = DirtyMap::new(8, 8);
    dirty.clear();
    let mut fires = Vec::new();
    let mut log: Vec<(u64, String)> = Vec::new();
    ignite_tile_with(&mut map, &mut dirty, &mut fires, &mut log, 12, 3, 4, 40);
    assert_eq!(log, vec![(12, "Fire! A forest fire has started!".to_string())]);
    assert_eq!(map.get(3, 4), Some(&Terrain::Burning));
    assert_eq!(map.get(4, 4), Some(&Terrain::Forest));
    assert!(dirty.is_dirty(3, 4));
    assert!(!dirty.is_dirty(4, 4));
    assert_eq!(fires, vec![(3, 4, 40)]);
}

#[test]
fn fires_burn_down_and_scorch() {
    let mut fires = vec![(1, 1, 1), (2, 2, 5), (3, 3, 0), (4, 4, 2)];
    let done = burn_down(&mut fires);
    assert_eq!(fires, vec![(2, 2, 4), (4, 4, 1)]);
    assert_eq!(done, vec![(1, 1), (3, 3)]);
    let done2 = burn_down(&mut fires);
    assert_eq!(done2, vec![(4, 4)]);
    assert_eq!(fires, vec![(2, 2, 3)]);

    let mut map = TileMap::new(5, 5, Terrain::Burning);
    let mut dirty = DirtyMap::new(5, 5);
    dirty.clear();
    scorch_tiles(&mut map, &mut dirty, &done);
    assert_eq!(map.get(1, 1), Some(&Terrain::Scorched));
    assert_eq!(map.get(3, 3), Some(&Terrain::Scorched));
    assert_eq!(map.get(2, 2), Some(&Terrain::Burning));
    assert!(dirty.is_dirty(1, 1) && dirty.is_dirty(3, 3) && !dirty.is_dirty(2, 2));
}

#[test]
fn spread_skips_tiles_already_burning() {
    let burning = vec![(2, 2, 10)];
    let fresh = vec![(3, 2, 30)];
    assert!(!is_new_fire(&burning, &fresh, 2, 2));
    assert!(!is_new_fire(&burning, &fresh, 3, 2));
    assert!(is_new_fire(&burning, &fresh, 2, 3));
}

#[test]
fn new_fires_are_lit_and_tracked() {
    let mut map = TileMap::new(6, 6, Terrain::Grass);
    let mut dirty = DirtyMap::new(6, 6);
    dirty.clear();
    let mut fires = vec![(0, 0, 3)];
    light_new_fires(&mut map, &mut dirty, &mut fires, vec![(1, 0, 35), (9, 9, 40)]);
    assert_eq!(map.get(1, 0), Some(&Terrain::Burning));
    assert_eq!(map.get(0, 1), Some(&Terrain::Grass));
    assert!(dirty.is_dirty(1, 0));
    assert_eq!(fires, vec![(0, 0, 3), (1, 0, 35), (9, 9, 40)]);
}
