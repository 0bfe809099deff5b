use colony_sim::chokepoint::{is_barrier, ChokepointKind, ChokepointMap};
use colony_sim::tilemap::{Terrain, TileMap};

/// Helper: create a map filled with a single terrain, then apply overrides.
fn make_map(
    width: usize,
    height: usize,
    fill: Terrain,
    overrides: &[(usize, usize, Terrain)],
) -> TileMap {
    let mut map = TileMap::new(width, height, fill);
    for &(x, y, t) in overrides {
        map.set(x, y, t);
    }
    map
}

/// Chokepoint score of a tile: `1 / corridor width`, 0.0 where there is none.
fn score(cm: &ChokepointMap, x: usize, y: usize) -> f64 {
    let w = cm.corridor_width(x, y);
    if w == 0 {
        0.0
    } else {
        1.0 / w as f64
    }
}

#[test]
fn mountain_pass_detection() {
    // 30x30 map: Grass everywhere, two Mountain walls leaving a 3-tile gap.
    // Mountains at x=12 and x=16, y=10..20; the gap is x=13,14,15.
    let mut overrides = Vec::new();
    for y in 10..20 {
        overrides.push((12, y, Terrain::Mountain));
        overrides.push((16, y, Terrain::Mountain));
    }
    let map = make_map(30, 30, Terrain::Grass, &overrides);
    let river_mask = vec![false; 30 * 30];
    let cm = ChokepointMap::compute(&map, &river_mask);

    // Tiles in the gap should have high scores
    let score_13 = score(&cm, 13, 15);
    let score_14 = score(&cm, 14, 15);
    let score_15 = score(&cm, 15, 15);
    assert!(score_13 >= 0.25, "x=13 y=15 should score >= 0.25, got {}", score_13);
    assert!(score_14 >= 0.25, "x=14 y=15 should score >= 0.25, got {}", score_14);
    assert!(score_15 >= 0.25, "x=15 y=15 should score >= 0.25, got {}", score_15);

    // Tile in open area should score 0.0
    let score_open = score(&cm, 5, 15);
    assert!(score_open < 0.01, "x=5 y=15 (open) should score ~0.0, got {}", score_open);
}

#[test]
fn river_crossing_detection() {
    // 30x30 map with horizontal river at y=14,15 (Water terrain + river_mask).
    let mut overrides = Vec::new();
    for x in 0..30 {
        overrides.push((x, 14, Terrain::Water));
        overrides.push((x, 15, Terrain::Water));
    }
    let map = make_map(30, 30, Terrain::Grass, &overrides);
    let mut river_mask = vec![false; 30 * 30];
    for x in 0..30 {
        river_mask[14 * 30 + x] = true;
        river_mask[15 * 30 + x] = true;
    }
    let cm = ChokepointMap::compute(&map, &river_mask);

    // Bank tiles at y=13 and y=16 should have scores > 0
    let bank_top = score(&cm, 15, 13);
    let bank_bot = score(&cm, 15, 16);
    assert!(bank_top > 0.0, "bank tile y=13 should score > 0, got {}", bank_top);
    assert!(bank_bot > 0.0, "bank tile y=16 should score > 0, got {}", bank_bot);
}

#[test]
fn coastal_narrow_detection() {
    // Water on left half (x<10), Mountain on right half (x>15), Grass in a strip.
    let mut overrides = Vec::new();
    for y in 0..30 {
        for x in 0..10 {
            overrides.push((x, y, Terrain::Water));
        }
        for x in 16..30 {
            overrides.push((x, y, Terrain::Mountain));
        }
    }
    let map = make_map(30, 30, Terrain::Grass, &overrides);
    let river_mask = vec![false; 30 * 30];
    let cm = ChokepointMap::compute(&map, &river_mask);

    // Strip tiles (x=10..16) at y=15 should score around 0.14-0.17 (width ~6)
    let score_strip = score(&cm, 13, 15);
    assert!(score_strip > 0.1, "strip tile should score > 0.1, got {}", score_strip);
}

#[test]
fn open_terrain_scores_zero() {
    // All-Grass 30x30 map: no barriers except map edges.
    let map = make_map(30, 30, Terrain::Grass, &[]);
    let river_mask = vec![false; 30 * 30];
    let cm = ChokepointMap::compute(&map, &river_mask);

    // Interior tiles far from edges should score 0 (min_width > 8)
    for y in 10..20 {
        for x in 10..20 {
            assert!(
                score(&cm, x, y) < 0.01,
                "open tile ({},{}) should score 0, got {}",
                x,
                y,
                score(&cm, x, y)
            );
        }
    }
}

#[test]
fn barrier_terrain_scores_zero() {
    // Mountain and Water tiles themselves should have score 0.
    let mut overrides = Vec::new();
    overrides.push((15, 15, Terrain::Mountain));
    overrides.push((15, 16, Terrain::Water));
    overrides.push((15, 17, Terrain::Cliff));
    let map = make_map(30, 30, Terrain::Grass, &overrides);
    let river_mask = vec![false; 30 * 30];
    let cm = ChokepointMap::compute(&map, &river_mask);

    assert_eq!(score(&cm, 15, 15), 0.0, "Mountain tile should score 0");
    assert_eq!(score(&cm, 15, 16), 0.0, "Water tile should score 0");
    assert_eq!(score(&cm, 15, 17), 0.0, "Cliff tile should score 0");
}

#[test]
fn clustering_produces_one_location_for_pass() {
    // Same mountain pass as above: should produce a ChokepointLocation.
    let mut overrides = Vec::new();
    for y in 10..20 {
        overrides.push((12, y, Terrain::Mountain));
        overrides.push((16, y, Terrain::Mountain));
    }
    let map = make_map(30, 30, Terrain::Grass, &overrides);
    let river_mask = vec![false; 30 * 30];
    let cm = ChokepointMap::compute(&map, &river_mask);

    // Filter to MountainPass locations near the gap
    let pass_locations: Vec<_> = cm
        .locations
        .iter()
        .filter(|loc| {
            loc.kind == ChokepointKind::MountainPass
                && loc.x >= 12
                && loc.x <= 16
                && loc.y >= 10
                && loc.y < 20
        })
        .collect();

    assert!(
        !pass_locations.is_empty(),
        "should detect at least one mountain pass location"
    );

    // The detected width should be around 3
    let loc = &pass_locations[0];
    assert!(loc.width <= 4, "pass width should be ~3, got {}", loc.width);
}

#[test]
fn single_tile_gap_scores_one() {
    // A 1-tile gap between two mountain walls.
    let mut overrides = Vec::new();
    for y in 5..25 {
        // Wall at x=14 and x=16, gap at x=15
        overrides.push((14, y, Terrain::Mountain));
        overrides.push((16, y, Terrain::Mountain));
    }
    let map = make_map(30, 30, Terrain::Grass, &overrides);
    let river_mask = vec![false; 30 * 30];
    let cm = ChokepointMap::compute(&map, &river_mask);

    let s = score(&cm, 15, 15);
    assert!(
        (s - 1.0).abs() < f64::EPSILON,
        "single-tile gap should score 1.0, got {}",
        s
    );
}

#[test]
fn wide_gap_scores_zero() {
    // A 10-tile gap (width > 8) should score 0.
    let mut overrides = Vec::new();
    for y in 5..25 {
        overrides.push((5, y, Terrain::Mountain));
        overrides.push((16, y, Terrain::Mountain));
    }
    let map = make_map(30, 30, Terrain::Grass, &overrides);
    let river_mask = vec![false; 30 * 30];
    let cm = ChokepointMap::compute(&map, &river_mask);

    // Center of the 10-tile gap at x=10
    let s = score(&cm, 10, 15);
    assert!(s < 0.01, "10-tile gap center should score ~0, got {}", s);
}

#[test]
fn building_wall_is_barrier() {
    // BuildingWall should act as barrier for chokepoint detection.
    let mut overrides = Vec::new();
    for y in 5..25 {
        overrides.push((14, y, Terrain::BuildingWall));
        overrides.push((16, y, Terrain::BuildingWall));
    }
    let map = make_map(30, 30, Terrain::Grass, &overrides);
    let river_mask = vec![false; 30 * 30];
    let cm = ChokepointMap::compute(&map, &river_mask);

    let s = score(&cm, 15, 15);
    assert!(
        (s - 1.0).abs() < f64::EPSILON,
        "gap between BuildingWalls should score 1.0, got {}",
        s
    );
}

// --- further cases ---

#[test]
fn barrier_terrains() {
    assert!(is_barrier(Terrain::Water));
    assert!(is_barrier(Terrain::Cliff));
    assert!(is_barrier(Terrain::BuildingWall));
    assert!(is_barrier(Terrain::Mountain));
    assert!(!is_barrier(Terrain::Grass));
    assert!(!is_barrier(Terrain::Ford));
    assert!(!is_barrier(Terrain::Snow));
}

#[test]
fn river_bank_width_is_river_width_plus_one() {
    // A two-tile-wide river: its banks get corridor width 3 (score 1/3).
    let mut overrides = Vec::new();
    for x in 0..30 {
        overrides.push((x, 14, Terrain::Water));
        overrides.push((x, 15, Terrain::Water));
    }
    let map = make_map(30, 30, Terrain::Grass, &overrides);
    let mut river_mask = vec![false; 30 * 30];
    for x in 0..30 {
        river_mask[14 * 30 + x] = true;
        river_mask[15 * 30 + x] = true;
    }
    let cm = ChokepointMap::compute(&map, &river_mask);
    assert_eq!(cm.corridor_width(15, 13), 3);
    assert_eq!(cm.corridor_width(15, 16), 3);
    // the river itself is a barrier
    assert_eq!(cm.corridor_width(15, 14), 0);
    // without a full-size mask, no bank is raised
    let cm2 = ChokepointMap::compute(&map, &river_mask[..10]);
    assert_eq!(cm2.corridor_width(15, 13), 0);
    // the long strip of bank tiles is too large to form a location of its own
    assert!(cm.locations.iter().all(|l| l.kind != ChokepointKind::RiverCrossing));
}

#[test]
fn narrow_ford_is_a_river_crossing() {
    // Mountains on both sides of a short stretch of river with one-tile banks.
    let mut overrides = Vec::new();
    for y in 0..30 {
        for x in 0..30 {
            if !(12..=16).contains(&x) || !(12..=16).contains(&y) {
                overrides.push((x, y, Terrain::Mountain));
            }
        }
    }
    for x in 12..=16 {
        overrides.push((x, 14, Terrain::Water));
    }
    let map = make_map(30, 30, Terrain::Grass, &overrides);
    let mut river_mask = vec![false; 30 * 30];
    for x in 12..=16 {
        river_mask[14 * 30 + x] = true;
    }
    let cm = ChokepointMap::compute(&map, &river_mask);
    assert!(!cm.locations.is_empty());
    assert!(cm.locations.iter().any(|l| l.kind == ChokepointKind::RiverCrossing));
}

#[test]
fn enclosed_corridor_location_is_exact() {
    // Solid rock except a one-tile-wide corridor at x=5, y=3..=8.
    let mut overrides = Vec::new();
    for y in 0..11 {
        for x in 0..11 {
            if !(x == 5 && (3..=8).contains(&y)) {
                overrides.push((x, y, Terrain::Mountain));
            }
        }
    }
    let map = make_map(11, 11, Terrain::Grass, &overrides);
    let cm = ChokepointMap::compute(&map, &[]);
    assert_eq!(cm.locations.len(), 1);
    let loc = &cm.locations[0];
    // all six tiles score 1.0; the last one visited is the center
    assert_eq!((loc.x, loc.y), (5, 8));
    assert_eq!(loc.width, 1);
    // walls to the east and west: traffic flows north-south
    assert_eq!(loc.axis, (0, 1));
    assert_eq!(loc.kind, ChokepointKind::MountainPass);
}

#[test]
fn locations_sorted_best_first() {
    // Short river stretches: a two-tile-wide one above a one-tile-wide one.
    let mut overrides = Vec::new();
    let mut river_mask = vec![false; 30 * 30];
    for x in 10..13 {
        for y in [6, 7, 20] {
            overrides.push((x, y, Terrain::Water));
            river_mask[y * 30 + x] = true;
        }
    }
    let map = make_map(30, 30, Terrain::Grass, &overrides);
    let cm = ChokepointMap::compute(&map, &river_mask);
    let found: Vec<(usize, usize, u16)> = cm.locations.iter().map(|l| (l.x, l.y, l.width)).collect();
    // the wider river's bank is found first but sorts last
    assert_eq!(found, vec![(12, 19, 2), (12, 21, 2), (12, 8, 3)]);
    assert!(cm.locations.iter().all(|l| l.kind == ChokepointKind::RiverCrossing));
    assert!(cm.locations.iter().all(|l| l.axis == (1, 0)));
}

#[test]
fn out_of_bounds_scores_zero() {
    let map = make_map(10, 10, Terrain::Grass, &[(5, 0, Terrain::Cliff)]);
    let cm = ChokepointMap::compute(&map, &[]);
    assert_eq!(cm.corridor_width(10, 3), 0);
    assert_eq!(cm.corridor_width(3, 10), 0);
    assert_eq!(cm.width, 10);
    assert_eq!(cm.corridors.len(), 100);
}

#[test]
fn empty_map_has_no_chokepoints() {
    let cm = ChokepointMap::empty(7, 3);
    assert_eq!(cm.width, 7);
    assert_eq!(cm.height, 3);
    assert_eq!(cm.corridors.len(), 21);
    assert!(cm.corridors.iter().all(|&w| w == 0));
    assert!(cm.locations.is_empty());
}

#[test]
fn tilemap_get_and_set() {
    let mut map = TileMap::new(4, 3, Terrain::Sand);
    assert_eq!(map.get(3, 2), Some(&Terrain::Sand));
    assert_eq!(map.get(4, 0), None);
    map.set(1, 1, Terrain::Road);
    map.set(9, 9, Terrain::Road);
    assert_eq!(map.get(1, 1), Some(&Terrain::Road));
    assert_eq!(map.get(0, 1), Some(&Terrain::Sand));
}

#[test]
fn center_is_last_narrowest_in_visiting_order() {
    // A stem at x=5 (y=0..=2) meets a row at y=3 (x=1..=6); all else rock.
    // Every open tile is a one-tile-wide corridor.
    let mut overrides = Vec::new();
    for y in 0..11 {
        for x in 0..11 {
            let open = (x == 5 && y <= 2) || (y == 3 && (1..=6).contains(&x));
            if !open {
                overrides.push((x, y, Terrain::Mountain));
            }
        }
    }
    let map = make_map(11, 11, Terrain::Grass, &overrides);
    let cm = ChokepointMap::compute(&map, &[]);
    assert_eq!(cm.locations.len(), 1);
    assert_eq!(cm.locations[0].width, 1);
    // the search enters at (5, 0), the first tile in scan order, and reaches
    // (1, 3) last, although (6, 3) comes last in scan order
    assert_eq!((cm.locations[0].x, cm.locations[0].y), (1, 3));
}

#[test]
fn mask_of_wrong_size_is_ignored() {
    // The narrow ford of `narrow_ford_is_a_river_crossing`.
    let mut overrides = Vec::new();
    for y in 0..30 {
        for x in 0..30 {
            if !(12..=16).contains(&x) || !(12..=16).contains(&y) {
                overrides.push((x, y, Terrain::Mountain));
            }
        }
    }
    for x in 12..=16 {
        overrides.push((x, 14, Terrain::Water));
    }
    let map = make_map(30, 30, Terrain::Grass, &overrides);
    let mut river_mask = vec![false; 30 * 30];
    for x in 12..=16 {
        river_mask[14 * 30 + x] = true;
    }
    let full = ChokepointMap::compute(&map, &river_mask);
    let short = ChokepointMap::compute(&map, &river_mask[..14 * 30 + 15]);
    let none = ChokepointMap::compute(&map, &vec![false; 30 * 30]);
    assert_eq!(short.corridors, none.corridors);
    let fields = |cm: &ChokepointMap| -> Vec<(usize, usize, u16, (i32, i32), ChokepointKind)> {
        cm.locations.iter().map(|l| (l.x, l.y, l.width, l.axis, l.kind)).collect()
    };
    assert_eq!(fields(&short), fields(&none));
    assert!(full.locations.iter().any(|l| l.kind == ChokepointKind::RiverCrossing));
    assert!(short.locations.iter().all(|l| l.kind != ChokepointKind::RiverCrossing));
}
