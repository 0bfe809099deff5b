use colony_sim::events::{event_line, EventLine, EventNote, EventSystem, GameEvent, SeasonFacts, SeasonalEvent};
use colony_sim::frame::Color;
use colony_sim::milestones::{check_milestones, message_of, road_nearby, SettlementFacts};
use colony_sim::modes::{Milestone, ThreatTier};
use colony_sim::palette::Season;
use colony_sim::threat::{
    compute_threat_score, raid_strength, raider_chance, raider_party_size, raider_season_multiplier,
    raiders_come, threat_check_due, wolf_chance, wolf_pack_size, wolf_season_multiplier, wolves_come,
    THREAT_ROLL_RANGE,
};
use colony_sim::tilemap::{Terrain, TileMap};

/// A threat score given in points, as the library's hundredths of a point.
fn score(points: f64) -> u64 {
    (points * 100.0).round() as u64
}

/// A starting settlement: three villagers, some stock, no counted buildings.
fn starting_score(extra_villagers: u64, extra_resources: u64, extra_buildings: u64) -> u64 {
    compute_threat_score(3 + extra_villagers, 120 + extra_resources, extra_buildings)
}

#[test]
fn threat_score_empty_settlement() {
    let s = starting_score(0, 0, 0);
    assert!(s < score(30.0), "New settlement should be below Established tier, got {}", s);
    assert_eq!(compute_threat_score(0, 0, 0), 0);
}

#[test]
fn threat_score_scales_with_population() {
    let base = starting_score(0, 0, 0);
    let after = starting_score(10, 0, 0);
    assert!(after > base);
    // 10 villagers * 0.5 = 5.0 increase
    assert!(after - base >= score(4.5));
}

#[test]
fn threat_score_scales_with_resources() {
    let base = starting_score(0, 0, 0);
    let after = starting_score(0, 500 + 300, 0);
    assert!(after > base);
    // 800 total * 0.01 = 8.0 increase
    assert!(after - base >= score(7.5));
}

#[test]
fn threat_score_scales_with_buildings() {
    let base = starting_score(0, 0, 0);
    let after = starting_score(0, 0, 3);
    assert!(after > base);
    // 3 buildings * 2.0 = 6.0 increase
    assert_eq!(after - base, score(6.0));
}

#[test]
fn threat_score_drops_after_resource_loss() {
    let before = compute_threat_score(3, 200 + 100, 0);
    let after = compute_threat_score(3, 100 + 50, 0);
    assert!(after < before);
}

#[test]
fn threat_tier_boundaries() {
    assert_eq!(ThreatTier::from_score(score(0.0)), ThreatTier::Quiet);
    assert_eq!(ThreatTier::from_score(score(14.9)), ThreatTier::Quiet);
    assert_eq!(ThreatTier::from_score(score(15.0)), ThreatTier::Growing);
    assert_eq!(ThreatTier::from_score(score(29.9)), ThreatTier::Growing);
    assert_eq!(ThreatTier::from_score(score(30.0)), ThreatTier::Established);
    assert_eq!(ThreatTier::from_score(score(49.9)), ThreatTier::Established);
    assert_eq!(ThreatTier::from_score(score(50.0)), ThreatTier::Prosperous);
    assert_eq!(ThreatTier::from_score(score(74.9)), ThreatTier::Prosperous);
    assert_eq!(ThreatTier::from_score(score(75.0)), ThreatTier::Empire);
    assert_eq!(ThreatTier::from_score(score(200.0)), ThreatTier::Empire);
}

#[test]
fn wolf_pack_size_scales() {
    assert_eq!(wolf_pack_size(score(0.0)), 1);
    assert_eq!(wolf_pack_size(score(20.0)), 2);
    assert_eq!(wolf_pack_size(score(60.0)), 4);
    assert_eq!(wolf_pack_size(score(200.0)), 6); // clamped
}

#[test]
fn raider_party_size_scales() {
    assert_eq!(raider_party_size(score(0.0)), 2);
    assert_eq!(raider_party_size(score(25.0)), 3);
    assert_eq!(raider_party_size(score(75.0)), 5);
    assert_eq!(raider_party_size(score(500.0)), 8); // clamped
}

#[test]
fn no_raiders_below_established_tier() {
    // Raider chance formula: ((score - 25) * 0.5).max(0).min(30)
    // At score 20: (20 - 25) * 0.5 = negative -> 0
    for season in [Season::Spring, Season::Summer, Season::Autumn, Season::Winter] {
        assert_eq!(raider_chance(score(20.0), season), 0, "No raiders below score 25");
    }
}

#[test]
fn wolf_season_multipliers() {
    assert_eq!(wolf_season_multiplier(Season::Winter), 150);
    assert_eq!(wolf_season_multiplier(Season::Spring), 50);
    assert_eq!(wolf_season_multiplier(Season::Summer), 70);
    assert_eq!(wolf_season_multiplier(Season::Autumn), 100);
}

#[test]
fn raider_season_multipliers() {
    assert_eq!(raider_season_multiplier(Season::Autumn), 130);
    assert_eq!(raider_season_multiplier(Season::Winter), 50);
    assert_eq!(raider_season_multiplier(Season::Spring), 80);
    assert_eq!(raider_season_multiplier(Season::Summer), 100);
}

#[test]
fn threat_chances_in_percent() {
    // (5 + 0.4 * 10) = 9% in autumn; one percent is THREAT_ROLL_RANGE / 100
    let percent = THREAT_ROLL_RANGE / 100;
    assert_eq!(wolf_chance(score(10.0), Season::Autumn), 9 * percent);
    // capped at 40%, times 1.5 in winter
    assert_eq!(wolf_chance(score(100.0), Season::Winter), 60 * percent);
    // (45 - 25) * 0.5 = 10%, times 1.3 in autumn
    assert_eq!(raider_chance(score(45.0), Season::Autumn), 13 * percent);
    // capped at 30%
    assert_eq!(raider_chance(score(1000.0), Season::Summer), 30 * percent);
    assert!(wolves_come(score(10.0), Season::Autumn, 9 * percent - 1));
    assert!(!wolves_come(score(10.0), Season::Autumn, 9 * percent));
}

#[test]
fn raiders_need_established_tier_and_cooldown() {
    let percent = THREAT_ROLL_RANGE / 100;
    // score 29: 2% chance, but only a growing settlement
    assert!(!raiders_come(score(29.0), Season::Summer, 3000, 0, 0));
    assert!(raiders_come(score(45.0), Season::Summer, 3000, 0, 10 * percent - 1));
    assert!(!raiders_come(score(45.0), Season::Summer, 3000, 0, 10 * percent));
    // wolves came this very tick
    assert!(!raiders_come(score(45.0), Season::Summer, 3000, 3000, 0));
    assert!(threat_check_due(6000, 0));
    assert!(!threat_check_due(6001, 0));
    assert!(!threat_check_due(6000, 5950));
    assert!(!threat_check_due(6000, 7000));
    assert_eq!(raid_strength(raider_party_size(score(45.0))), 9);
}

fn events(list: Vec<GameEvent>) -> EventSystem {
    EventSystem { active_events: list, event_log: Vec::new() }
}

#[test]
fn event_queries() {
    let es = events(vec![GameEvent::WolfSurge { ticks_remaining: 3 }, GameEvent::Drought { ticks_remaining: 9 }]);
    assert!(es.has_drought());
    assert!(!es.has_bountiful_harvest());
    assert_eq!(es.wolf_spawn_multiplier(), 200);
    assert_eq!(es.movement_multiplier(), 100);
    assert!(es.has_event_type("wolf_surge"));
    assert!(es.has_event_type("drought"));
    assert!(!es.has_event_type("droughts"));
    assert!(!es.has_event_type("blizzard"));
    let cold = events(vec![GameEvent::Blizzard { ticks_remaining: 1 }]);
    assert_eq!(cold.movement_multiplier(), 50);
    assert_eq!(cold.wolf_spawn_multiplier(), 100);
}

#[test]
fn events_count_down_and_report_endings() {
    let mut es = events(vec![
        GameEvent::Drought { ticks_remaining: 1 },
        GameEvent::Migration { count: 2 },
        GameEvent::Plague { ticks_remaining: 5, kills_remaining: 2 },
        GameEvent::BanditRaid { stolen: false, strength: 9 },
        GameEvent::BanditRaid { stolen: true, strength: 6 },
        GameEvent::Blizzard { ticks_remaining: 0 },
    ]);
    let notes = es.tick_events();
    assert_eq!(
        notes,
        vec![EventNote::DroughtEnded, EventNote::Raid { strength: 9 }, EventNote::BlizzardEnded]
    );
    assert_eq!(es.active_events, vec![GameEvent::Plague { ticks_remaining: 4, kills_remaining: 2 }]);
    assert_eq!(notes[0].end_text(), Some("Drought has ended."));
    assert_eq!(notes[1].end_text(), None);
}

#[test]
fn plague_claims_first_deadly_plague() {
    let mut es = events(vec![
        GameEvent::Plague { ticks_remaining: 5, kills_remaining: 0 },
        GameEvent::Plague { ticks_remaining: 7, kills_remaining: 2 },
    ]);
    assert!(es.plague_claims_victim());
    assert!(es.plague_claims_victim());
    assert!(!es.plague_claims_victim());
    assert_eq!(es.active_events[1], GameEvent::Plague { ticks_remaining: 7, kills_remaining: 0 });
}

#[test]
fn seasonal_rolls() {
    let facts = SeasonFacts {
        season: Season::Summer,
        year: 2,
        villagers: 4,
        grain: 20,
        food: 31,
        hut_capacity: 5,
        has_bakery: false,
    };
    let mut es = events(Vec::new());
    assert_eq!(es.seasonal_event(&facts, 1), Some(SeasonalEvent::Drought));
    assert_eq!(es.seasonal_event(&facts, 2), None);
    assert_eq!(es.seasonal_event(&SeasonFacts { grain: 19, ..facts }, 0), None);
    let mut log: Vec<(u64, String)> = Vec::new();
    assert!(es.start_seasonal_event(&mut log, 100, SeasonalEvent::Drought));
    assert_eq!(log, vec![(100, "Drought! Water levels dropping.".to_string())]);
    assert_eq!(es.active_events, vec![GameEvent::Drought { ticks_remaining: 150 }]);
    assert_eq!(es.event_log, vec!["Drought! Water levels dropping.".to_string()]);
    // no second drought while one is in progress
    assert_eq!(es.seasonal_event(&facts, 0), None);
    assert_eq!(es.seasonal_event(&SeasonFacts { season: Season::Spring, ..facts }, 19), Some(SeasonalEvent::Migration));
    assert_eq!(es.seasonal_event(&SeasonFacts { season: Season::Spring, food: 30, ..facts }, 0), None);
    assert_eq!(es.seasonal_event(&SeasonFacts { season: Season::Winter, ..facts }, 9), Some(SeasonalEvent::Blizzard));
    assert_eq!(es.seasonal_event(&SeasonFacts { season: Season::Autumn, ..facts }, 19), Some(SeasonalEvent::Harvest));
    assert!(!es.start_seasonal_event(&mut log, 200, SeasonalEvent::Migration));
    assert_eq!(log.len(), 1);
    assert_eq!(es.active_events.len(), 1);
    assert!(es.plague_breaks_out(&facts, 4));
    assert!(!es.plague_breaks_out(&SeasonFacts { has_bakery: true, ..facts }, 4));
    assert!(!es.plague_breaks_out(&SeasonFacts { year: 1, ..facts }, 0));
    es.start_plague(&mut log, 300, 2);
    assert_eq!(log[1], (300, "Plague strikes! 2 villagers at risk.".to_string()));
    assert_eq!(es.event_log.last(), Some(&"Plague strikes! 2 villagers at risk.".to_string()));
    assert!(!es.plague_breaks_out(&facts, 0));
    es.welcome_migrants(&mut log, 400, 3);
    assert_eq!(log[2], (400, "3 migrants arrived!".to_string()));
    assert_eq!(es.event_log.last(), Some(&"3 migrants arrived!".to_string()));
}

#[test]
fn event_log_keeps_last_five() {
    let mut es = events(Vec::new());
    for i in 0..8 {
        es.event_log.push(format!("e{}", i));
    }
    es.trim_log();
    assert_eq!(es.event_log, vec!["e3", "e4", "e5", "e6", "e7"]);
    es.start_wolf_surge();
    es.start_raid(12);
    assert_eq!(
        es.active_events,
        vec![GameEvent::WolfSurge { ticks_remaining: 400 }, GameEvent::BanditRaid { stolen: false, strength: 12 }]
    );
}

fn facts() -> SettlementFacts {
    SettlementFacts {
        year: 0,
        villagers: 3,
        wood: 0,
        planks: 0,
        food: 10,
        knows_stone: false,
        farms: 0,
        huts: 0,
        processing: 0,
        garrisons: 0,
        has_workshop: false,
        has_smithy: false,
        has_granary: false,
        has_bakery: false,
    }
}

#[test]
fn milestones_fire_once_in_order() {
    let map = TileMap::new(10, 10, Terrain::Grass);
    let mut had = Vec::new();
    let mut raid = false;
    let f = SettlementFacts { wood: 4, villagers: 12, farms: 2, huts: 3, ..facts() };
    let fired = check_milestones(&mut had, &f, &map, (5, 5), 7, &mut raid);
    assert_eq!(
        fired,
        vec![Milestone::FirstWoodGathered, Milestone::FirstFarm, Milestone::FirstHut, Milestone::PopulationTen, Milestone::FiveBuildings]
    );
    assert_eq!(had, fired);
    let again = check_milestones(&mut had, &f, &map, (5, 5), 8, &mut raid);
    assert!(again.is_empty());
    assert_eq!(message_of(Milestone::FirstHut), "First hut built -- settlers have shelter!");
}

#[test]
fn road_milestone_checked_every_hundred_ticks() {
    let mut map = TileMap::new(60, 60, Terrain::Grass);
    map.set(45, 10, Terrain::Road);
    assert!(road_nearby(&map, 30, 30));
    assert!(!road_nearby(&map, 10, 50));
    let mut had = Vec::new();
    let mut raid = false;
    assert!(check_milestones(&mut had, &facts(), &map, (30, 30), 150, &mut raid).is_empty());
    assert_eq!(check_milestones(&mut had, &facts(), &map, (30, 30), 200, &mut raid), vec![Milestone::FirstRoad]);
}

#[test]
fn raid_milestone_clears_flag() {
    let map = TileMap::new(1, 1, Terrain::Grass);
    let mut had = vec![Milestone::FirstWoodGathered];
    let mut raid = true;
    let f = SettlementFacts { wood: 9, villagers: 50, year: 1, ..facts() };
    let fired = check_milestones(&mut had, &f, &map, (0, 0), 1, &mut raid);
    assert_eq!(
        fired,
        vec![
            Milestone::FirstWinterSurvived,
            Milestone::PopulationTen,
            Milestone::PopulationTwentyFive,
            Milestone::RaidSurvived,
            Milestone::PopulationFifty
        ]
    );
    assert!(!raid);
}

#[test]
fn timed_event_lasts_its_countdown() {
    let mut es = events(vec![GameEvent::BountifulHarvest { ticks_remaining: 3 }]);
    assert!(es.tick_events().is_empty());
    assert!(es.tick_events().is_empty());
    assert!(es.has_bountiful_harvest());
    assert_eq!(es.tick_events(), vec![EventNote::HarvestEnded]);
    assert!(!es.has_bountiful_harvest());
    assert!(es.active_events.is_empty());
    assert_eq!(EventNote::HarvestEnded.end_text(), Some("Bountiful harvest season ends."));
}

#[test]
fn panel_lines_of_events() {
    assert_eq!(
        event_line(&GameEvent::Plague { ticks_remaining: 12, kills_remaining: 1 }),
        EventLine::Timed { name: "Plague", remaining: 12, color: Color(180, 50, 180) }
    );
    assert_eq!(
        event_line(&GameEvent::BountifulHarvest { ticks_remaining: 3 }),
        EventLine::Timed { name: "Harvest+", remaining: 3, color: Color(50, 200, 50) }
    );
    assert_eq!(event_line(&GameEvent::Migration { count: 2 }), EventLine::Migrants { count: 2 });
    assert_eq!(event_line(&GameEvent::BanditRaid { stolen: false, strength: 6 }), EventLine::Raid);
}

#[test]
fn reached_milestones_are_logged_and_announced() {
    let map = TileMap::new(4, 4, Terrain::Grass);
    let mut had = vec![Milestone::FirstHut];
    let mut raid = false;
    let mut banner = None;
    let mut log = vec!["before".to_string()];
    let mut notes: Vec<(u64, String)> = Vec::new();
    let f = SettlementFacts { wood: 1, huts: 1, food: 100, ..facts() };
    let fired = colony_sim::milestones::check_and_announce_milestones(
        &mut had, &f, &map, (1, 1), 77, &mut raid, &mut banner, &mut log, &mut notes,
    );
    assert_eq!(fired, vec![Milestone::FirstWoodGathered, Milestone::HundredFood]);
    assert_eq!(
        log,
        vec![
            "before".to_string(),
            "[*] First timber hauled back to camp!".to_string(),
            "[*] Food stores reached 100 -- plenty for now!".to_string()
        ]
    );
    assert_eq!(notes.len(), 2);
    assert_eq!(notes[1], (77, "[*] Food stores reached 100 -- plenty for now!".to_string()));
    let b = banner.unwrap();
    assert_eq!(b.message, "Food stores reached 100 -- plenty for now!");
    assert_eq!(b.ticks_remaining, 120);
}
