use colony_sim::diagnostics::{settlement_threat_score, state_name, tally_population};
use colony_sim::visuals::{BehaviorState, ResourceType, Species};

fn creatures() -> Vec<(Species, BehaviorState)> {
    vec![
        (Species::Villager, BehaviorState::Idle { timer: 1 }),
        (Species::Villager, BehaviorState::Hauling { resource_type: ResourceType::Wood }),
        (Species::Predator, BehaviorState::Hunting),
        (Species::Villager, BehaviorState::Idle { timer: 4 }),
        (Species::Prey, BehaviorState::AtHome { timer: 2 }),
        (Species::Prey, BehaviorState::Idle { timer: 2 }),
    ]
}

#[test]
fn population_tallied_by_species_and_state() {
    let d = tally_population(&creatures(), &vec![2, 2]);
    assert_eq!((d.villagers, d.wolves, d.rabbits), (3, 1, 2));
    assert_eq!(d.villager_states[2], 2);
    assert_eq!(state_name(2), "Idle");
    assert_eq!(d.villager_states[9], 1);
    assert_eq!(state_name(9), "Hauling");
    assert_eq!(d.villager_states.iter().sum::<u32>(), 3);
    assert_eq!(d.hut_capacity, 4);
    assert_eq!(d.growth_potential, 1);
    let crowded = tally_population(&creatures(), &vec![1]);
    assert_eq!(crowded.growth_potential, 0);
}

#[test]
fn threat_score_from_counts() {
    // 3 villagers, 800 stock units, 3 buildings: 1.5 + 8 + 6 points
    let s = settlement_threat_score(&creatures(), &vec![500, 300, 0, 0, 0, 0, 0], &vec![3, 0, 0, 0]);
    assert_eq!(s, 150 + 800 + 600);
    assert_eq!(settlement_threat_score(&Vec::new(), &Vec::new(), &Vec::new()), 0);
}

#[test]
fn threat_score_grows_with_villagers_stock_and_buildings() {
    let stock = vec![100, 0, 0];
    let buildings = vec![1, 1];
    let base = settlement_threat_score(&creatures(), &stock, &buildings);
    // ten more villagers: five more points
    let mut more = creatures();
    for _ in 0..10 {
        more.push((Species::Villager, BehaviorState::Hunting));
    }
    assert_eq!(settlement_threat_score(&more, &stock, &buildings), base + 500);
    // a wolf changes nothing
    let mut wolf = creatures();
    wolf.push((Species::Predator, BehaviorState::Hunting));
    assert_eq!(settlement_threat_score(&wolf, &stock, &buildings), base);
    // 800 more stock units: eight more points; less stock lowers the score
    assert_eq!(settlement_threat_score(&creatures(), &vec![100, 800, 0], &buildings), base + 800);
    assert!(settlement_threat_score(&creatures(), &vec![50, 0, 0], &buildings) < base);
    // three more farms: six more points
    assert_eq!(settlement_threat_score(&creatures(), &stock, &vec![1, 1, 3]), base + 600);
}
