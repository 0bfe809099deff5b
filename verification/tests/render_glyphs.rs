use colony_sim::frame::Color;
use colony_sim::modes::RenderMode;
use colony_sim::visuals::{
    landscape_entity_visual, map_building_center_glyph, map_mode_entity_visual, BehaviorState,
    BuildingType, ResourceType, SeekReason, Species,
};

#[test]
fn render_map_villager_idle_shows_at_sign() {
    let (ch, color) =
        map_mode_entity_visual(Species::Villager, &BehaviorState::Idle { timer: 10 }).unwrap();
    assert_eq!(ch, '@');
    assert_eq!(color, Color(80, 200, 255));
}

#[test]
fn render_map_villager_gathering_wood_shows_dollar() {
    let state = BehaviorState::Gathering {
        resource_type: ResourceType::Wood,
        timer: 5,
    };
    let (ch, color) = map_mode_entity_visual(Species::Villager, &state).unwrap();
    assert_eq!(ch, '$');
    assert_eq!(color, Color(160, 110, 50));
}

#[test]
fn render_map_villager_hauling_shows_percent() {
    let state = BehaviorState::Hauling {
        resource_type: ResourceType::Stone,
    };
    let (ch, _) = map_mode_entity_visual(Species::Villager, &state).unwrap();
    assert_eq!(ch, '%');
}

#[test]
fn render_map_villager_building_shows_ampersand() {
    let state = BehaviorState::Building { timer: 0 };
    let (ch, _) = map_mode_entity_visual(Species::Villager, &state).unwrap();
    assert_eq!(ch, '&');
}

#[test]
fn render_map_villager_farming_shows_f() {
    let state = BehaviorState::Farming { lease: 5 };
    let (ch, _) = map_mode_entity_visual(Species::Villager, &state).unwrap();
    assert_eq!(ch, 'f');
}

#[test]
fn render_map_villager_working_shows_g() {
    let state = BehaviorState::Working { lease: 3 };
    let (ch, _) = map_mode_entity_visual(Species::Villager, &state).unwrap();
    assert_eq!(ch, 'g');
}

#[test]
fn render_map_villager_sleeping_shows_z() {
    let state = BehaviorState::Sleeping { timer: 10 };
    let (ch, _) = map_mode_entity_visual(Species::Villager, &state).unwrap();
    assert_eq!(ch, 'z');
}

#[test]
fn render_map_villager_fleeing_shows_exclamation() {
    let state = BehaviorState::FleeHome { timer: 10 };
    let (ch, color) = map_mode_entity_visual(Species::Villager, &state).unwrap();
    assert_eq!(ch, '!');
    assert_eq!(color, Color(255, 60, 60));
}

#[test]
fn render_map_villager_exploring_shows_question() {
    let state = BehaviorState::Exploring { timer: 0 };
    let (ch, _) = map_mode_entity_visual(Species::Villager, &state).unwrap();
    assert_eq!(ch, '?');
}

#[test]
fn render_map_predator_hunting_uppercase_w() {
    let state = BehaviorState::Hunting;
    let (ch, _) = map_mode_entity_visual(Species::Predator, &state).unwrap();
    assert_eq!(ch, 'W');
}

#[test]
fn render_map_predator_wander_lowercase_w() {
    let state = BehaviorState::Wander { timer: 5 };
    let (ch, _) = map_mode_entity_visual(Species::Predator, &state).unwrap();
    assert_eq!(ch, 'w');
}

#[test]
fn render_map_prey_at_home_hidden() {
    let state = BehaviorState::AtHome { timer: 5 };
    assert!(map_mode_entity_visual(Species::Prey, &state).is_none());
}

#[test]
fn render_map_prey_fleeing_shows_orange_exclamation() {
    let state = BehaviorState::FleeHome { timer: 10 };
    let (ch, color) = map_mode_entity_visual(Species::Prey, &state).unwrap();
    assert_eq!(ch, '!');
    assert_eq!(color, Color(255, 150, 50));
}

#[test]
fn render_map_mode_behavior_coverage() {
    // Every BehaviorState variant must produce a result for a villager.
    let states: Vec<BehaviorState> = vec![
        BehaviorState::Idle { timer: 0 },
        BehaviorState::Wander { timer: 0 },
        BehaviorState::Seek {
            reason: SeekReason::Food,
        },
        BehaviorState::Gathering {
            resource_type: ResourceType::Wood,
            timer: 0,
        },
        BehaviorState::Hauling {
            resource_type: ResourceType::Wood,
        },
        BehaviorState::Building { timer: 0 },
        BehaviorState::Farming { lease: 0 },
        BehaviorState::Working { lease: 0 },
        BehaviorState::Sleeping { timer: 0 },
        BehaviorState::FleeHome { timer: 0 },
        BehaviorState::Exploring { timer: 0 },
        BehaviorState::Captured,
        BehaviorState::Eating { timer: 0 },
        BehaviorState::Hunting,
        BehaviorState::AtHome { timer: 0 },
    ];
    for state in &states {
        let result = map_mode_entity_visual(Species::Villager, state);
        assert!(
            result.is_some(),
            "Villager should have a map glyph for {:?}",
            state
        );
    }
}

#[test]
fn render_map_building_center_glyphs_distinct() {
    // Center markers for major buildings should all be distinct
    let buildings = [
        BuildingType::Hut,
        BuildingType::Stockpile,
        BuildingType::Farm,
        BuildingType::Workshop,
        BuildingType::Smithy,
        BuildingType::Garrison,
        BuildingType::Granary,
        BuildingType::Bakery,
        BuildingType::TownHall,
    ];
    let glyphs: Vec<char> = buildings
        .iter()
        .map(|b| map_building_center_glyph(b).0)
        .collect();
    for i in 0..glyphs.len() {
        for j in (i + 1)..glyphs.len() {
            assert_ne!(
                glyphs[i], glyphs[j],
                "building {:?} and {:?} share glyph '{}'",
                buildings[i], buildings[j], glyphs[i]
            );
        }
    }
}

#[test]
fn render_render_mode_cycle() {
    assert_eq!(RenderMode::Normal.next(), RenderMode::MapView);
    assert_eq!(RenderMode::MapView.next(), RenderMode::Landscape);
    assert_eq!(RenderMode::Landscape.next(), RenderMode::Debug);
    assert_eq!(RenderMode::Debug.next(), RenderMode::Normal);
}

#[test]
fn render_render_mode_labels() {
    assert_eq!(RenderMode::Normal.label(), "Normal");
    assert_eq!(RenderMode::MapView.label(), "Map");
    assert_eq!(RenderMode::Landscape.label(), "Landscape");
    assert_eq!(RenderMode::Debug.label(), "Debug");
}

#[test]
fn render_landscape_entity_villager_all_states() {
    // Every villager behavior state should produce a visible glyph
    let states: Vec<BehaviorState> = vec![
        BehaviorState::Idle { timer: 10 },
        BehaviorState::Wander { timer: 10 },
        BehaviorState::Seek {
            reason: SeekReason::Food,
        },
        BehaviorState::Gathering {
            timer: 10,
            resource_type: ResourceType::Wood,
        },
        BehaviorState::Hauling {
            resource_type: ResourceType::Wood,
        },
        BehaviorState::Building { timer: 10 },
        BehaviorState::Farming { lease: 10 },
        BehaviorState::Working { lease: 10 },
        BehaviorState::Sleeping { timer: 10 },
        BehaviorState::FleeHome { timer: 10 },
        BehaviorState::Exploring { timer: 10 },
        BehaviorState::Eating { timer: 10 },
    ];
    for state in &states {
        let result = landscape_entity_visual(Species::Villager, state);
        assert!(
            result.is_some(),
            "Villager should have a landscape glyph for {:?}",
            state
        );
        let (ch, _) = result.unwrap();
        assert_eq!(ch, 'o', "Villager glyph should be 'o' in landscape mode");
    }
}

#[test]
fn render_landscape_entity_predator_saturated() {
    // Predator should always have red-ish high-saturation color
    let state = BehaviorState::Hunting;
    let (ch, color) = landscape_entity_visual(Species::Predator, &state).unwrap();
    assert_eq!(ch, 'w');
    assert!(color.0 > 200, "predator red channel should be high");
}

#[test]
fn render_landscape_prey_hidden_at_home() {
    let state = BehaviorState::AtHome { timer: 10 };
    assert!(landscape_entity_visual(Species::Prey, &state).is_none());
}
