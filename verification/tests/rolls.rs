use colony_sim::dice::roll_percent;
use colony_sim::dirty::DirtyMap;
use colony_sim::events::{migrant_count, EventSystem, SeasonFacts};
use colony_sim::fire::{burn_time, ignite_tile};
use colony_sim::palette::Season;
use colony_sim::threat::{roll_for_raiders, roll_for_wolves};
use colony_sim::tilemap::{Terrain, TileMap};

#[test]
fn percent_rolls_cover_their_range() {
    let rolls: Vec<u32> = (0..2000).map(|_| roll_percent()).collect();
    assert!(rolls.iter().all(|&r| r < 100));
    assert!(rolls.iter().any(|&r| r < 50));
    assert!(rolls.iter().any(|&r| r >= 50));
}

#[test]
fn burn_times_and_migrants_in_range() {
    let burns: Vec<u32> = (0..500).map(|_| burn_time()).collect();
    assert!(burns.iter().all(|&t| (30..=50).contains(&t)));
    assert!(burns.iter().any(|&t| t != burns[0]));
    let migrants: Vec<u32> = (0..500).map(|_| migrant_count()).collect();
    assert!(migrants.iter().all(|&n| (1..=3).contains(&n)));
    assert!(migrants.iter().any(|&n| n != migrants[0]));
}

#[test]
fn ignited_tile_burns_thirty_to_fifty_ticks() {
    let mut map = TileMap::new(3, 3, Terrain::Forest);
    let mut dirty = DirtyMap::new(3, 3);
    let mut fires = Vec::new();
    let mut log: Vec<(u64, String)> = Vec::new();
    ignite_tile(&mut map, &mut dirty, &mut fires, &mut log, 5, 1, 1);
    assert_eq!(log, vec![(5, "Fire! A forest fire has started!".to_string())]);
    assert_eq!(map.get(1, 1), Some(&Terrain::Burning));
    assert_eq!((fires[0].0, fires[0].1), (1, 1));
    assert!((30..=50).contains(&fires[0].2));
}

#[test]
fn impossible_rolls_never_succeed() {
    let es = EventSystem { active_events: Vec::new(), event_log: Vec::new() };
    let no_grain = SeasonFacts {
        season: Season::Summer,
        year: 3,
        villagers: 10,
        grain: 0,
        food: 0,
        hut_capacity: 0,
        has_bakery: true,
    };
    for _ in 0..200 {
        assert_eq!(es.roll_seasonal_event(&no_grain), None);
        assert_eq!(es.roll_plague(&no_grain), None);
        // a settlement of 20 points is never raided
        assert!(!roll_for_raiders(2000, Season::Autumn, 3000, 0));
    }
    let open = SeasonFacts { has_bakery: false, ..no_grain };
    let kills: Vec<Option<u32>> = (0..2000).map(|_| es.roll_plague(&open)).collect();
    assert!(kills.iter().all(|k| k.map_or(true, |n| n == 1 || n == 2)));
    assert!(kills.iter().any(|k| k.is_some()));
    let wolves = (0..2000).filter(|_| roll_for_wolves(10_000, Season::Winter)).count();
    // a 60% chance: far from never and from always
    assert!(wolves > 800 && wolves < 1600);
}
