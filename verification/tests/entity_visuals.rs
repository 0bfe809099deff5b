use colony_sim::frame::Color;
use colony_sim::visuals::{
    direction_char, entity_visual, BehaviorState, ResourceType, SeekReason, Species, Velocity,
};

/// A velocity given in tiles per tick, as the library's millionths of a tile.
fn vel(dx: f64, dy: f64) -> Velocity {
    Velocity {
        dx: (dx * 1_000_000.0) as i64,
        dy: (dy * 1_000_000.0) as i64,
    }
}

#[test]
fn render_direction_char_right() {
    assert_eq!(direction_char(vel(1.0, 0.0)), '>');
}

#[test]
fn render_direction_char_left() {
    assert_eq!(direction_char(vel(-1.0, 0.0)), '<');
}

#[test]
fn render_direction_char_down() {
    assert_eq!(direction_char(vel(0.0, 1.0)), 'v');
}

#[test]
fn render_direction_char_up() {
    assert_eq!(direction_char(vel(0.0, -1.0)), '^');
}

#[test]
fn render_direction_char_zero_defaults_right() {
    assert_eq!(direction_char(vel(0.0, 0.0)), '>');
}

#[test]
fn render_direction_char_diagonal_favors_dominant() {
    // dx=3, dy=1 => horizontal dominant => '>'
    assert_eq!(direction_char(vel(3.0, 1.0)), '>');
    // dx=1, dy=-3 => vertical dominant => '^'
    assert_eq!(direction_char(vel(1.0, -3.0)), '^');
}

// --- Villager states ---

#[test]
fn render_villager_idle_shows_circle() {
    let state = BehaviorState::Idle { timer: 10 };
    let (ch, color) = entity_visual(Species::Villager, &state, vel(0.0, 0.0));
    assert_eq!(ch, 'o');
    assert_eq!(color, Color(80, 80, 180));
}

#[test]
fn render_villager_wander_shows_circle_slate() {
    let state = BehaviorState::Wander { timer: 5 };
    let (ch, _) = entity_visual(Species::Villager, &state, vel(0.0, 0.0));
    assert_eq!(ch, 'o');
}

#[test]
fn render_villager_seek_food_shows_exclamation() {
    let state = BehaviorState::Seek {
        reason: SeekReason::Food,
    };
    let (ch, color) = entity_visual(Species::Villager, &state, vel(1.0, 0.0));
    assert_eq!(ch, '!');
    assert_eq!(color, Color(220, 180, 50));
}

#[test]
fn render_villager_seek_stockpile_shows_direction() {
    let state = BehaviorState::Seek {
        reason: SeekReason::Stockpile,
    };
    // Moving right
    let (ch, _) = entity_visual(Species::Villager, &state, vel(2.0, 0.5));
    assert_eq!(ch, '>');
    // Moving left
    let (ch, _) = entity_visual(Species::Villager, &state, vel(-2.0, 0.5));
    assert_eq!(ch, '<');
}

#[test]
fn render_villager_seek_wood_brown() {
    let state = BehaviorState::Seek {
        reason: SeekReason::Wood,
    };
    let (_, color) = entity_visual(Species::Villager, &state, vel(1.0, 0.0));
    assert_eq!(color, Color(139, 90, 43));
}

#[test]
fn render_villager_gathering_wood_shows_t() {
    let state = BehaviorState::Gathering {
        timer: 20,
        resource_type: ResourceType::Wood,
    };
    let (ch, color) = entity_visual(Species::Villager, &state, vel(0.0, 0.0));
    assert_eq!(ch, 'T');
    assert_eq!(color, Color(139, 90, 43));
}

#[test]
fn render_villager_gathering_stone_shows_m() {
    let state = BehaviorState::Gathering {
        timer: 15,
        resource_type: ResourceType::Stone,
    };
    let (ch, _) = entity_visual(Species::Villager, &state, vel(0.0, 0.0));
    assert_eq!(ch, 'M');
}

#[test]
fn render_villager_gathering_food_shows_f() {
    let state = BehaviorState::Gathering {
        timer: 10,
        resource_type: ResourceType::Food,
    };
    let (ch, color) = entity_visual(Species::Villager, &state, vel(0.0, 0.0));
    assert_eq!(ch, 'F');
    assert_eq!(color, Color(50, 200, 50));
}

#[test]
fn render_villager_hauling_uses_direction_and_resource_color() {
    let state = BehaviorState::Hauling {
        resource_type: ResourceType::Wood,
    };
    let (ch, color) = entity_visual(Species::Villager, &state, vel(0.0, 1.0));
    assert_eq!(ch, 'v'); // moving down
    assert_eq!(color, Color(180, 120, 50));
}

#[test]
fn render_villager_hauling_stone_grey() {
    let state = BehaviorState::Hauling {
        resource_type: ResourceType::Stone,
    };
    let (_, color) = entity_visual(Species::Villager, &state, vel(-1.0, 0.0));
    assert_eq!(color, Color(180, 180, 180));
}

#[test]
fn render_villager_building_shows_b() {
    let state = BehaviorState::Building {
        timer: 30,
    };
    let (ch, color) = entity_visual(Species::Villager, &state, vel(0.0, 0.0));
    assert_eq!(ch, 'B');
    assert_eq!(color, Color(255, 220, 50));
}

#[test]
fn render_villager_farming_shows_tilde() {
    let state = BehaviorState::Farming {
        lease: 100,
    };
    let (ch, color) = entity_visual(Species::Villager, &state, vel(0.0, 0.0));
    assert_eq!(ch, '~');
    assert_eq!(color, Color(80, 200, 80));
}

#[test]
fn render_villager_working_shows_star() {
    let state = BehaviorState::Working {
        lease: 50,
    };
    let (ch, _) = entity_visual(Species::Villager, &state, vel(0.0, 0.0));
    assert_eq!(ch, '*');
}

#[test]
fn render_villager_exploring_shows_arrow() {
    let state = BehaviorState::Exploring {
        timer: 100,
    };
    let (ch, color) = entity_visual(Species::Villager, &state, vel(0.0, 0.0));
    assert_eq!(ch, '>');
    assert_eq!(color, Color(50, 180, 255));
}

#[test]
fn render_villager_sleeping_shows_z() {
    let state = BehaviorState::Sleeping { timer: 200 };
    let (ch, color) = entity_visual(Species::Villager, &state, vel(0.0, 0.0));
    assert_eq!(ch, 'z');
    assert_eq!(color, Color(60, 60, 140));
}

#[test]
fn render_villager_flee_shows_exclamation_red() {
    let state = BehaviorState::FleeHome { timer: 50 };
    let (ch, color) = entity_visual(Species::Villager, &state, vel(0.0, 0.0));
    assert_eq!(ch, '!');
    assert_eq!(color, Color(255, 50, 50));
}

#[test]
fn render_villager_eating_shows_e() {
    let state = BehaviorState::Eating { timer: 10 };
    let (ch, _) = entity_visual(Species::Villager, &state, vel(0.0, 0.0));
    assert_eq!(ch, 'e');
}

// --- Predator (wolf) states ---

#[test]
fn render_wolf_wander_lowercase() {
    let state = BehaviorState::Wander { timer: 10 };
    let (ch, _) = entity_visual(Species::Predator, &state, vel(0.0, 0.0));
    assert_eq!(ch, 'w');
}

#[test]
fn render_wolf_hunting_uppercase_bright_red() {
    let state = BehaviorState::Hunting;
    let (ch, color) = entity_visual(Species::Predator, &state, vel(1.0, 0.0));
    assert_eq!(ch, 'W');
    assert_eq!(color, Color(255, 50, 50));
}

#[test]
fn render_wolf_eating_shows_x() {
    let state = BehaviorState::Eating { timer: 5 };
    let (ch, _) = entity_visual(Species::Predator, &state, vel(0.0, 0.0));
    assert_eq!(ch, 'X');
}

#[test]
fn render_wolf_seek_directional() {
    let state = BehaviorState::Seek {
        reason: SeekReason::Unknown,
    };
    let (ch, _) = entity_visual(Species::Predator, &state, vel(-1.0, 0.0));
    assert_eq!(ch, '<');
}

// --- Prey (rabbit) states ---

#[test]
fn render_rabbit_wander_lowercase_r() {
    let state = BehaviorState::Wander { timer: 10 };
    let (ch, _) = entity_visual(Species::Prey, &state, vel(0.0, 0.0));
    assert_eq!(ch, 'r');
}

#[test]
fn render_rabbit_eating_green_tint() {
    let state = BehaviorState::Eating { timer: 5 };
    let (ch, color) = entity_visual(Species::Prey, &state, vel(0.0, 0.0));
    assert_eq!(ch, 'r');
    assert_eq!(color, Color(100, 180, 60));
}

#[test]
fn render_rabbit_flee_exclamation_yellow() {
    let state = BehaviorState::FleeHome { timer: 10 };
    let (ch, color) = entity_visual(Species::Prey, &state, vel(0.0, 0.0));
    assert_eq!(ch, '!');
    assert_eq!(color, Color(255, 200, 50));
}

#[test]
fn render_rabbit_captured_lowercase_x_red() {
    let state = BehaviorState::Captured;
    let (ch, color) = entity_visual(Species::Prey, &state, vel(0.0, 0.0));
    assert_eq!(ch, 'x');
    assert_eq!(color, Color(200, 50, 50));
}

#[test]
fn render_rabbit_at_home_dot() {
    let state = BehaviorState::AtHome { timer: 100 };
    let (ch, _) = entity_visual(Species::Prey, &state, vel(0.0, 0.0));
    assert_eq!(ch, '.');
}

// --- New hardening tests ---

#[test]
fn render_villager_states_produce_different_chars() {
    let idle_ch = entity_visual(Species::Villager, &BehaviorState::Idle { timer: 10 }, vel(0.0, 0.0)).0;
    let sleep_ch = entity_visual(Species::Villager, &BehaviorState::Sleeping { timer: 10 }, vel(0.0, 0.0)).0;
    let build_ch = entity_visual(Species::Villager, &BehaviorState::Building {
            timer: 10,
        }, vel(0.0, 0.0)).0;
    let farm_ch = entity_visual(Species::Villager, &BehaviorState::Farming {
            lease: 10,
        }, vel(0.0, 0.0)).0;

    // Each state should produce a distinct character
    let chars = [idle_ch, sleep_ch, build_ch, farm_ch];
    for i in 0..chars.len() {
        for j in (i + 1)..chars.len() {
            assert_ne!(
                chars[i], chars[j],
                "states {} and {} should have different chars: '{}' vs '{}'",
                i, j, chars[i], chars[j]
            );
        }
    }
}

#[test]
fn render_wolf_hunting_vs_idle_different_chars() {
    let (hunt_ch, hunt_color) = entity_visual(Species::Predator, &BehaviorState::Hunting, vel(1.0, 0.0));
    let (idle_ch, idle_color) = entity_visual(Species::Predator, &BehaviorState::Idle { timer: 10 }, vel(0.0, 0.0));

    assert_ne!(
        hunt_ch, idle_ch,
        "hunting wolf should look different from idle wolf"
    );
    assert_ne!(
        hunt_color, idle_color,
        "hunting wolf color should differ from idle"
    );
}

#[test]
fn render_direction_arrows_correct_for_cardinal_movements() {
    // Moving right
    assert_eq!(direction_char(vel(1.0, 0.0)), '>');
    // Moving left
    assert_eq!(direction_char(vel(-1.0, 0.0)), '<');
    // Moving up (screen coords: negative Y = up)
    assert_eq!(direction_char(vel(0.0, -1.0)), '^');
    // Moving down
    assert_eq!(direction_char(vel(0.0, 1.0)), 'v');
}

#[test]
fn render_villager_hauling_different_resources_same_direction_different_colors() {
    let (_, wood_color) = entity_visual(Species::Villager, &BehaviorState::Hauling {
            resource_type: ResourceType::Wood,
        }, vel(1.0, 0.0));
    let (_, stone_color) = entity_visual(Species::Villager, &BehaviorState::Hauling {
            resource_type: ResourceType::Stone,
        }, vel(1.0, 0.0));
    let (_, food_color) = entity_visual(Species::Villager, &BehaviorState::Hauling {
            resource_type: ResourceType::Food,
        }, vel(1.0, 0.0));

    assert_ne!(
        wood_color, stone_color,
        "wood and stone haul colors should differ"
    );
    assert_ne!(
        wood_color, food_color,
        "wood and food haul colors should differ"
    );
    assert_ne!(
        stone_color, food_color,
        "stone and food haul colors should differ"
    );
}

#[test]
fn render_villager_captured_shows_x() {
    let (ch, _) = entity_visual(Species::Villager, &BehaviorState::Captured, vel(0.0, 0.0));
    assert_eq!(ch, 'X');
}


#[test]
fn mod_direction_char_right() {
    assert_eq!(direction_char(vel(1.0, 0.0)), '>');
}

#[test]
fn mod_direction_char_left() {
    assert_eq!(direction_char(vel(-1.0, 0.0)), '<');
}

#[test]
fn mod_direction_char_down() {
    assert_eq!(direction_char(vel(0.0, 1.0)), 'v');
}

#[test]
fn mod_direction_char_up() {
    assert_eq!(direction_char(vel(0.0, -1.0)), '^');
}

#[test]
fn mod_direction_char_zero_defaults_right() {
    assert_eq!(direction_char(vel(0.0, 0.0)), '>');
}

#[test]
fn mod_direction_char_diagonal_favors_dominant() {
    // dx=3, dy=1 => horizontal dominant => '>'
    assert_eq!(direction_char(vel(3.0, 1.0)), '>');
    // dx=1, dy=-3 => vertical dominant => '^'
    assert_eq!(direction_char(vel(1.0, -3.0)), '^');
}

// --- Villager states ---

#[test]
fn mod_villager_idle_shows_circle() {
    let state = BehaviorState::Idle { timer: 10 };
    let (ch, color) = entity_visual(Species::Villager, &state, vel(0.0, 0.0));
    assert_eq!(ch, 'o');
    assert_eq!(color, Color(80, 80, 180));
}

#[test]
fn mod_villager_wander_shows_circle_slate() {
    let state = BehaviorState::Wander { timer: 5 };
    let (ch, _) = entity_visual(Species::Villager, &state, vel(0.0, 0.0));
    assert_eq!(ch, 'o');
}

#[test]
fn mod_villager_seek_food_shows_exclamation() {
    let state = BehaviorState::Seek {
        reason: SeekReason::Food,
    };
    let (ch, color) = entity_visual(Species::Villager, &state, vel(1.0, 0.0));
    assert_eq!(ch, '!');
    assert_eq!(color, Color(220, 180, 50));
}

#[test]
fn mod_villager_seek_stockpile_shows_direction() {
    let state = BehaviorState::Seek {
        reason: SeekReason::Stockpile,
    };
    // Moving right
    let (ch, _) = entity_visual(Species::Villager, &state, vel(2.0, 0.5));
    assert_eq!(ch, '>');
    // Moving left
    let (ch, _) = entity_visual(Species::Villager, &state, vel(-2.0, 0.5));
    assert_eq!(ch, '<');
}

#[test]
fn mod_villager_seek_wood_brown() {
    let state = BehaviorState::Seek {
        reason: SeekReason::Wood,
    };
    let (_, color) = entity_visual(Species::Villager, &state, vel(1.0, 0.0));
    assert_eq!(color, Color(139, 90, 43));
}

#[test]
fn mod_villager_gathering_wood_shows_t() {
    let state = BehaviorState::Gathering {
        timer: 20,
        resource_type: ResourceType::Wood,
    };
    let (ch, color) = entity_visual(Species::Villager, &state, vel(0.0, 0.0));
    assert_eq!(ch, 'T');
    assert_eq!(color, Color(139, 90, 43));
}

#[test]
fn mod_villager_gathering_stone_shows_m() {
    let state = BehaviorState::Gathering {
        timer: 15,
        resource_type: ResourceType::Stone,
    };
    let (ch, _) = entity_visual(Species::Villager, &state, vel(0.0, 0.0));
    assert_eq!(ch, 'M');
}

#[test]
fn mod_villager_gathering_food_shows_f() {
    let state = BehaviorState::Gathering {
        timer: 10,
        resource_type: ResourceType::Food,
    };
    let (ch, color) = entity_visual(Species::Villager, &state, vel(0.0, 0.0));
    assert_eq!(ch, 'F');
    assert_eq!(color, Color(50, 200, 50));
}

#[test]
fn mod_villager_hauling_uses_direction_and_resource_color() {
    let state = BehaviorState::Hauling {
        resource_type: ResourceType::Wood,
    };
    let (ch, color) = entity_visual(Species::Villager, &state, vel(0.0, 1.0));
    assert_eq!(ch, 'v'); // moving down
    assert_eq!(color, Color(180, 120, 50));
}

#[test]
fn mod_villager_hauling_stone_grey() {
    let state = BehaviorState::Hauling {
        resource_type: ResourceType::Stone,
    };
    let (_, color) = entity_visual(Species::Villager, &state, vel(-1.0, 0.0));
    assert_eq!(color, Color(180, 180, 180));
}

#[test]
fn mod_villager_building_shows_b() {
    let state = BehaviorState::Building {
        timer: 30,
    };
    let (ch, color) = entity_visual(Species::Villager, &state, vel(0.0, 0.0));
    assert_eq!(ch, 'B');
    assert_eq!(color, Color(255, 220, 50));
}

#[test]
fn mod_villager_farming_shows_tilde() {
    let state = BehaviorState::Farming {
        lease: 100,
    };
    let (ch, color) = entity_visual(Species::Villager, &state, vel(0.0, 0.0));
    assert_eq!(ch, '~');
    assert_eq!(color, Color(80, 200, 80));
}

#[test]
fn mod_villager_working_shows_star() {
    let state = BehaviorState::Working {
        lease: 50,
    };
    let (ch, _) = entity_visual(Species::Villager, &state, vel(0.0, 0.0));
    assert_eq!(ch, '*');
}

#[test]
fn mod_villager_exploring_shows_arrow() {
    let state = BehaviorState::Exploring {
        timer: 100,
    };
    let (ch, color) = entity_visual(Species::Villager, &state, vel(0.0, 0.0));
    assert_eq!(ch, '>');
    assert_eq!(color, Color(50, 180, 255));
}

#[test]
fn mod_villager_sleeping_shows_z() {
    let state = BehaviorState::Sleeping { timer: 200 };
    let (ch, color) = entity_visual(Species::Villager, &state, vel(0.0, 0.0));
    assert_eq!(ch, 'z');
    assert_eq!(color, Color(60, 60, 140));
}

#[test]
fn mod_villager_flee_shows_exclamation_red() {
    let state = BehaviorState::FleeHome { timer: 50 };
    let (ch, color) = entity_visual(Species::Villager, &state, vel(0.0, 0.0));
    assert_eq!(ch, '!');
    assert_eq!(color, Color(255, 50, 50));
}

#[test]
fn mod_villager_eating_shows_e() {
    let state = BehaviorState::Eating { timer: 10 };
    let (ch, _) = entity_visual(Species::Villager, &state, vel(0.0, 0.0));
    assert_eq!(ch, 'e');
}

// --- Predator (wolf) states ---

#[test]
fn mod_wolf_wander_lowercase() {
    let state = BehaviorState::Wander { timer: 10 };
    let (ch, _) = entity_visual(Species::Predator, &state, vel(0.0, 0.0));
    assert_eq!(ch, 'w');
}

#[test]
fn mod_wolf_hunting_uppercase_bright_red() {
    let state = BehaviorState::Hunting;
    let (ch, color) = entity_visual(Species::Predator, &state, vel(1.0, 0.0));
    assert_eq!(ch, 'W');
    assert_eq!(color, Color(255, 50, 50));
}

#[test]
fn mod_wolf_eating_shows_x() {
    let state = BehaviorState::Eating { timer: 5 };
    let (ch, _) = entity_visual(Species::Predator, &state, vel(0.0, 0.0));
    assert_eq!(ch, 'X');
}

#[test]
fn mod_wolf_seek_directional() {
    let state = BehaviorState::Seek {
        reason: SeekReason::Unknown,
    };
    let (ch, _) = entity_visual(Species::Predator, &state, vel(-1.0, 0.0));
    assert_eq!(ch, '<');
}

// --- Prey (rabbit) states ---

#[test]
fn mod_rabbit_wander_lowercase_r() {
    let state = BehaviorState::Wander { timer: 10 };
    let (ch, _) = entity_visual(Species::Prey, &state, vel(0.0, 0.0));
    assert_eq!(ch, 'r');
}

#[test]
fn mod_rabbit_eating_green_tint() {
    let state = BehaviorState::Eating { timer: 5 };
    let (ch, color) = entity_visual(Species::Prey, &state, vel(0.0, 0.0));
    assert_eq!(ch, 'r');
    assert_eq!(color, Color(100, 180, 60));
}

#[test]
fn mod_rabbit_flee_exclamation_yellow() {
    let state = BehaviorState::FleeHome { timer: 10 };
    let (ch, color) = entity_visual(Species::Prey, &state, vel(0.0, 0.0));
    assert_eq!(ch, '!');
    assert_eq!(color, Color(255, 200, 50));
}

#[test]
fn mod_rabbit_captured_lowercase_x_red() {
    let state = BehaviorState::Captured;
    let (ch, color) = entity_visual(Species::Prey, &state, vel(0.0, 0.0));
    assert_eq!(ch, 'x');
    assert_eq!(color, Color(200, 50, 50));
}

#[test]
fn mod_rabbit_at_home_dot() {
    let state = BehaviorState::AtHome { timer: 100 };
    let (ch, _) = entity_visual(Species::Prey, &state, vel(0.0, 0.0));
    assert_eq!(ch, '.');
}

// --- New hardening tests ---

#[test]
fn mod_villager_states_produce_different_chars() {
    let idle_ch = entity_visual(Species::Villager, &BehaviorState::Idle { timer: 10 }, vel(0.0, 0.0)).0;
    let sleep_ch = entity_visual(Species::Villager, &BehaviorState::Sleeping { timer: 10 }, vel(0.0, 0.0)).0;
    let build_ch = entity_visual(Species::Villager, &BehaviorState::Building {
            timer: 10,
        }, vel(0.0, 0.0)).0;
    let farm_ch = entity_visual(Species::Villager, &BehaviorState::Farming {
            lease: 10,
        }, vel(0.0, 0.0)).0;

    // Each state should produce a distinct character
    let chars = [idle_ch, sleep_ch, build_ch, farm_ch];
    for i in 0..chars.len() {
        for j in (i + 1)..chars.len() {
            assert_ne!(
                chars[i], chars[j],
                "states {} and {} should have different chars: '{}' vs '{}'",
                i, j, chars[i], chars[j]
            );
        }
    }
}

#[test]
fn mod_wolf_hunting_vs_idle_different_chars() {
    let (hunt_ch, hunt_color) = entity_visual(Species::Predator, &BehaviorState::Hunting, vel(1.0, 0.0));
    let (idle_ch, idle_color) = entity_visual(Species::Predator, &BehaviorState::Idle { timer: 10 }, vel(0.0, 0.0));

    assert_ne!(
        hunt_ch, idle_ch,
        "hunting wolf should look different from idle wolf"
    );
    assert_ne!(
        hunt_color, idle_color,
        "hunting wolf color should differ from idle"
    );
}

#[test]
fn mod_direction_arrows_correct_for_cardinal_movements() {
    // Moving right
    assert_eq!(direction_char(vel(1.0, 0.0)), '>');
    // Moving left
    assert_eq!(direction_char(vel(-1.0, 0.0)), '<');
    // Moving up (screen coords: negative Y = up)
    assert_eq!(direction_char(vel(0.0, -1.0)), '^');
    // Moving down
    assert_eq!(direction_char(vel(0.0, 1.0)), 'v');
}

#[test]
fn mod_villager_hauling_different_resources_same_direction_different_colors() {
    let (_, wood_color) = entity_visual(Species::Villager, &BehaviorState::Hauling {
            resource_type: ResourceType::Wood,
        }, vel(1.0, 0.0));
    let (_, stone_color) = entity_visual(Species::Villager, &BehaviorState::Hauling {
            resource_type: ResourceType::Stone,
        }, vel(1.0, 0.0));
    let (_, food_color) = entity_visual(Species::Villager, &BehaviorState::Hauling {
            resource_type: ResourceType::Food,
        }, vel(1.0, 0.0));

    assert_ne!(
        wood_color, stone_color,
        "wood and stone haul colors should differ"
    );
    assert_ne!(
        wood_color, food_color,
        "wood and food haul colors should differ"
    );
    assert_ne!(
        stone_color, food_color,
        "stone and food haul colors should differ"
    );
}

#[test]
fn mod_villager_captured_shows_x() {
    let (ch, _) = entity_visual(Species::Villager, &BehaviorState::Captured, vel(0.0, 0.0));
    assert_eq!(ch, 'X');
}


#[test]
fn heading_tie_goes_vertical() {
    assert_eq!(direction_char(vel(1.0, 1.0)), 'v');
    assert_eq!(direction_char(vel(-2.0, -2.0)), '^');
}

#[test]
fn heading_below_a_thousandth_is_still() {
    assert_eq!(direction_char(Velocity { dx: 999, dy: -999 }), '>');
    assert_eq!(direction_char(Velocity { dx: 0, dy: -1000 }), '^');
    assert_eq!(direction_char(Velocity { dx: -1000, dy: 999 }), '<');
}

#[test]
fn heading_of_extreme_velocities() {
    assert_eq!(direction_char(Velocity { dx: i64::MIN, dy: i64::MAX }), '<');
    assert_eq!(direction_char(Velocity { dx: i64::MAX, dy: i64::MIN }), '^');
}

#[test]
fn prey_ignores_velocity() {
    let state = BehaviorState::Wander { timer: 1 };
    assert_eq!(
        entity_visual(Species::Prey, &state, vel(5.0, 0.0)),
        entity_visual(Species::Prey, &state, vel(0.0, -5.0))
    );
}
