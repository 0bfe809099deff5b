use vstd::prelude::*;

use crate::frame::Color;

verus! {

/// Kind of creature an entity is.
#[derive(Debug, Clone, Copy, PartialEq, Eq, Structural)]
pub enum Species {
    Villager,
    Predator,
    Prey,
}

/// Resource kinds carried and gathered by villagers.
#[derive(Debug, Clone, Copy, PartialEq, Eq, Structural)]
pub enum ResourceType {
    Wood,
    Stone,
    Food,
    Grain,
    Planks,
    Masonry,
}

/// Why a creature is heading somewhere.
#[derive(Debug, Clone, Copy, PartialEq, Eq, Structural)]
pub enum SeekReason {
    Food,
    Stockpile,
    BuildSite,
    Wood,
    Stone,
    Hut,
    ExitBuilding,
    Unknown,
}

/// Current activity of a creature, with the integer data the display reads
/// or that the state carries (timers and leases).
#[derive(Debug, Clone, Copy, PartialEq, Eq, Structural)]
pub enum BehaviorState {
    Idle { timer: u32 },
    Wander { timer: u32 },
    Seek { reason: SeekReason },
    Gathering { resource_type: ResourceType, timer: u32 },
    Hauling { resource_type: ResourceType },
    Building { timer: u32 },
    Farming { lease: u32 },
    Working { lease: u32 },
    Exploring { timer: u32 },
    Sleeping { timer: u32 },
    FleeHome { timer: u32 },
    Eating { timer: u32 },
    Hunting,
    Captured,
    AtHome { timer: u32 },
}

/// Building kinds.
#[derive(Debug, Clone, Copy, PartialEq, Eq, Structural)]
pub enum BuildingType {
    Hut,
    Stockpile,
    Farm,
    Workshop,
    Smithy,
    Garrison,
    Granary,
    Bakery,
    TownHall,
    Wall,
    Road,
    Bridge,
    Shelter,
}

pub open spec fn rgb(r: u8, g: u8, b: u8) -> Color {
    Color(r, g, b)
}

/// Movement of an entity per tick, in millionths of a tile along each axis
/// (screen Y grows downward).
#[derive(Debug, Clone, Copy, PartialEq, Eq, Structural)]
pub struct Velocity {
    pub dx: i64,
    pub dy: i64,
}

/// Below this speed on both axes (a thousandth of a tile per tick) an entity
/// counts as standing still.
pub const STILL_SPEED: i64 = 1000;

pub open spec fn magnitude(v: i64) -> int {
    if v < 0 {
        -v
    } else {
        v as int
    }
}

/// The arrow of a movement: along the dominant axis, '>' when standing still;
/// on a tie the vertical axis wins.
pub open spec fn heading_of(vel: Velocity) -> char {
    if magnitude(vel.dx) < STILL_SPEED && magnitude(vel.dy) < STILL_SPEED {
        '>'
    } else if magnitude(vel.dx) > magnitude(vel.dy) {
        if vel.dx > 0 {
            '>'
        } else {
            '<'
        }
    } else if vel.dy > 0 {
        'v'
    } else {
        '^'
    }
}

fn magnitude_of(v: i64) -> (r: i128)
    ensures
        r == magnitude(v),
{
    if v < 0 {
        -(v as i128)
    } else {
        v as i128
    }
}

/// Direction arrow for a velocity (right, left, down or up).
pub fn direction_char(vel: Velocity) -> (c: char)
    ensures
        c == heading_of(vel),
{
    let ax = magnitude_of(vel.dx);
    let ay = magnitude_of(vel.dy);
    if ax < STILL_SPEED as i128 && ay < STILL_SPEED as i128 {
        return '>';
    }
    if ax > ay {
        if vel.dx > 0 {
            '>'
        } else {
            '<'
        }
    } else {
        // Screen Y increases downward, so positive dy = down
        if vel.dy > 0 {
            'v'
        } else {
            '^'
        }
    }
}

// ---------------------------------------------------------------------------
// Normal mode entity visuals: the glyph reflects the current activity; moving
// states show `heading`, the arrow of the movement direction.
// ---------------------------------------------------------------------------

/// Normal-mode glyph and base color of a villager.
pub open spec fn villager_look(state: BehaviorState, heading: char) -> (char, Color) {
    match state {
        BehaviorState::Idle { .. } => ('o', rgb(80, 80, 180)),
        BehaviorState::Wander { .. } => ('o', rgb(100, 100, 160)),
        BehaviorState::Seek { reason } => match reason {
            SeekReason::Food => ('!', rgb(220, 180, 50)),
            SeekReason::Stockpile => (heading, rgb(200, 180, 50)),
            SeekReason::BuildSite => (heading, rgb(255, 220, 50)),
            SeekReason::Wood => (heading, rgb(139, 90, 43)),
            SeekReason::Stone => (heading, rgb(150, 150, 150)),
            SeekReason::Hut => (heading, rgb(100, 100, 200)),
            SeekReason::ExitBuilding => ('V', rgb(100, 200, 255)),
            SeekReason::Unknown => ('?', rgb(150, 150, 50)),
        },
        BehaviorState::Gathering { resource_type, .. } => match resource_type {
            ResourceType::Wood => ('T', rgb(139, 90, 43)),
            ResourceType::Stone => ('M', rgb(150, 150, 150)),
            ResourceType::Food => ('F', rgb(50, 200, 50)),
            _ => ('g', rgb(180, 180, 100)),
        },
        BehaviorState::Hauling { resource_type } => match resource_type {
            ResourceType::Wood => (heading, rgb(180, 120, 50)),
            ResourceType::Stone => (heading, rgb(180, 180, 180)),
            ResourceType::Food => (heading, rgb(100, 220, 80)),
            ResourceType::Grain => (heading, rgb(220, 200, 80)),
            ResourceType::Planks => (heading, rgb(200, 160, 80)),
            ResourceType::Masonry => (heading, rgb(200, 200, 210)),
        },
        BehaviorState::Building { .. } => ('B', rgb(255, 220, 50)),
        BehaviorState::Farming { .. } => ('~', rgb(80, 200, 80)),
        BehaviorState::Working { .. } => ('*', rgb(200, 120, 50)),
        BehaviorState::Exploring { .. } => ('>', rgb(50, 180, 255)),
        BehaviorState::Sleeping { .. } => ('z', rgb(60, 60, 140)),
        BehaviorState::FleeHome { .. } => ('!', rgb(255, 50, 50)),
        BehaviorState::Eating { .. } => ('e', rgb(50, 200, 50)),
        BehaviorState::Hunting => ('V', rgb(200, 100, 100)),
        BehaviorState::Captured => ('X', rgb(200, 50, 50)),
        BehaviorState::AtHome { .. } => ('.', rgb(80, 80, 100)),
    }
}

/// Normal-mode glyph and base color of a villager moving at `vel`.
pub fn villager_visual(state: &BehaviorState, vel: Velocity) -> (r: (char, Color))
    ensures
        r == villager_look(*state, heading_of(vel)),
{
    let heading = direction_char(vel);
    match state {
        BehaviorState::Idle { .. } => ('o', Color(80, 80, 180)),
        BehaviorState::Wander { .. } => ('o', Color(100, 100, 160)),
        BehaviorState::Seek { reason } => match reason {
            SeekReason::Food => ('!', Color(220, 180, 50)),
            SeekReason::Stockpile => (heading, Color(200, 180, 50)),
            SeekReason::BuildSite => (heading, Color(255, 220, 50)),
            SeekReason::Wood => (heading, Color(139, 90, 43)),
            SeekReason::Stone => (heading, Color(150, 150, 150)),
            SeekReason::Hut => (heading, Color(100, 100, 200)),
            SeekReason::ExitBuilding => ('V', Color(100, 200, 255)),
            SeekReason::Unknown => ('?', Color(150, 150, 50)),
        },
        BehaviorState::Gathering { resource_type, .. } => match resource_type {
            ResourceType::Wood => ('T', Color(139, 90, 43)),
            ResourceType::Stone => ('M', Color(150, 150, 150)),
            ResourceType::Food => ('F', Color(50, 200, 50)),
            _ => ('g', Color(180, 180, 100)),
        },
        BehaviorState::Hauling { resource_type } => match resource_type {
            ResourceType::Wood => (heading, Color(180, 120, 50)),
            ResourceType::Stone => (heading, Color(180, 180, 180)),
            ResourceType::Food => (heading, Color(100, 220, 80)),
            ResourceType::Grain => (heading, Color(220, 200, 80)),
            ResourceType::Planks => (heading, Color(200, 160, 80)),
            ResourceType::Masonry => (heading, Color(200, 200, 210)),
        },
        BehaviorState::Building { .. } => ('B', Color(255, 220, 50)),
        BehaviorState::Farming { .. } => ('~', Color(80, 200, 80)),
        BehaviorState::Working { .. } => ('*', Color(200, 120, 50)),
        BehaviorState::Exploring { .. } => ('>', Color(50, 180, 255)),
        BehaviorState::Sleeping { .. } => ('z', Color(60, 60, 140)),
        BehaviorState::FleeHome { .. } => ('!', Color(255, 50, 50)),
        BehaviorState::Eating { .. } => ('e', Color(50, 200, 50)),
        // Villagers shouldn't normally reach these, but handle gracefully
        BehaviorState::Hunting => ('V', Color(200, 100, 100)),
        BehaviorState::Captured => ('X', Color(200, 50, 50)),
        BehaviorState::AtHome { .. } => ('.', Color(80, 80, 100)),
    }
}

/// Normal-mode glyph and base color of a predator.
pub open spec fn predator_look(state: BehaviorState, heading: char) -> (char, Color) {
    match state {
        BehaviorState::Wander { .. } => ('w', rgb(160, 50, 50)),
        BehaviorState::Idle { .. } => ('w', rgb(120, 40, 40)),
        BehaviorState::Seek { .. } => (heading, rgb(180, 60, 60)),
        BehaviorState::Hunting => ('W', rgb(255, 50, 50)),
        BehaviorState::Eating { .. } => ('X', rgb(200, 30, 30)),
        BehaviorState::FleeHome { .. } => (heading, rgb(160, 80, 80)),
        _ => ('W', rgb(160, 50, 50)),
    }
}

/// Normal-mode glyph and base color of a predator moving at `vel`.
pub fn predator_visual(state: &BehaviorState, vel: Velocity) -> (r: (char, Color))
    ensures
        r == predator_look(*state, heading_of(vel)),
{
    let heading = direction_char(vel);
    match state {
        BehaviorState::Wander { .. } => ('w', Color(160, 50, 50)),
        BehaviorState::Idle { .. } => ('w', Color(120, 40, 40)),
        BehaviorState::Seek { .. } => (heading, Color(180, 60, 60)),
        BehaviorState::Hunting => ('W', Color(255, 50, 50)),
        BehaviorState::Eating { .. } => ('X', Color(200, 30, 30)),
        BehaviorState::FleeHome { .. } => (heading, Color(160, 80, 80)),
        _ => ('W', Color(160, 50, 50)),
    }
}

/// Normal-mode glyph and base color of a prey animal.
pub open spec fn prey_look(state: BehaviorState) -> (char, Color) {
    match state {
        BehaviorState::Wander { .. } => ('r', rgb(180, 140, 80)),
        BehaviorState::Idle { .. } => ('r', rgb(140, 110, 60)),
        BehaviorState::Eating { .. } => ('r', rgb(100, 180, 60)),
        BehaviorState::FleeHome { .. } => ('!', rgb(255, 200, 50)),
        BehaviorState::AtHome { .. } => ('.', rgb(100, 80, 50)),
        BehaviorState::Captured => ('x', rgb(200, 50, 50)),
        _ => ('r', rgb(180, 140, 80)),
    }
}

/// Normal-mode glyph and base color of a prey animal.
pub fn prey_visual(state: &BehaviorState) -> (r: (char, Color))
    ensures
        r == prey_look(*state),
{
    match state {
        BehaviorState::Wander { .. } => ('r', Color(180, 140, 80)),
        BehaviorState::Idle { .. } => ('r', Color(140, 110, 60)),
        BehaviorState::Eating { .. } => ('r', Color(100, 180, 60)),
        BehaviorState::FleeHome { .. } => ('!', Color(255, 200, 50)),
        BehaviorState::AtHome { .. } => ('.', Color(100, 80, 50)),
        BehaviorState::Captured => ('x', Color(200, 50, 50)),
        _ => ('r', Color(180, 140, 80)),
    }
}

/// Normal-mode glyph and base color of any entity.
pub open spec fn entity_look(species: Species, state: BehaviorState, vel: Velocity) -> (char, Color) {
    match species {
        Species::Villager => villager_look(state, heading_of(vel)),
        Species::Predator => predator_look(state, heading_of(vel)),
        Species::Prey => prey_look(state),
    }
}

/// Map (species, behavior state, velocity) to a display character and base
/// color, so entities visually reflect their current activity. The color is
/// the base color before day/night tinting.
pub fn entity_visual(species: Species, state: &BehaviorState, vel: Velocity) -> (r: (char, Color))
    ensures
        r == entity_look(species, *state, vel),
{
    match species {
        Species::Villager => villager_visual(state, vel),
        Species::Predator => predator_visual(state, vel),
        Species::Prey => prey_visual(state),
    }
}

// ---------------------------------------------------------------------------
// Map Mode entity visuals: bright, saturated glyphs on muted terrain, keyed on
// (species, behavior state). Map Mode has its own glyph language.
// ---------------------------------------------------------------------------

/// Map-mode glyph and color of a villager.
pub open spec fn map_villager_look(state: BehaviorState) -> (char, Color) {
    match state {
        BehaviorState::Idle { .. } | BehaviorState::Wander { .. } => ('@', rgb(80, 200, 255)),
        BehaviorState::Seek { .. } => ('@', rgb(180, 200, 100)),
        BehaviorState::Gathering { resource_type, .. } => match resource_type {
            ResourceType::Wood => ('$', rgb(160, 110, 50)),
            ResourceType::Stone => ('$', rgb(150, 150, 160)),
            ResourceType::Food => ('$', rgb(80, 200, 80)),
            _ => ('$', rgb(180, 180, 100)),
        },
        BehaviorState::Hauling { .. } => ('%', rgb(220, 190, 60)),
        BehaviorState::Building { .. } => ('&', rgb(255, 220, 50)),
        BehaviorState::Farming { .. } => ('f', rgb(80, 200, 80)),
        BehaviorState::Working { .. } => ('g', rgb(210, 140, 60)),
        BehaviorState::Sleeping { .. } => ('z', rgb(100, 100, 180)),
        BehaviorState::FleeHome { .. } => ('!', rgb(255, 60, 60)),
        BehaviorState::Exploring { .. } => ('?', rgb(160, 220, 160)),
        BehaviorState::Captured => ('x', rgb(120, 30, 30)),
        BehaviorState::Eating { .. } => ('@', rgb(80, 200, 255)),
        BehaviorState::Hunting => ('@', rgb(80, 200, 255)),
        BehaviorState::AtHome { .. } => ('@', rgb(80, 200, 255)),
    }
}

/// Map-mode glyph and color of a villager.
pub fn map_villager_visual(state: &BehaviorState) -> (r: (char, Color))
    ensures
        r == map_villager_look(*state),
{
    match state {
        BehaviorState::Idle { .. } | BehaviorState::Wander { .. } => ('@', Color(80, 200, 255)),
        BehaviorState::Seek { .. } => ('@', Color(180, 200, 100)),
        BehaviorState::Gathering { resource_type, .. } => match resource_type {
            ResourceType::Wood => ('$', Color(160, 110, 50)),
            ResourceType::Stone => ('$', Color(150, 150, 160)),
            ResourceType::Food => ('$', Color(80, 200, 80)),
            _ => ('$', Color(180, 180, 100)),
        },
        BehaviorState::Hauling { .. } => ('%', Color(220, 190, 60)),
        BehaviorState::Building { .. } => ('&', Color(255, 220, 50)),
        BehaviorState::Farming { .. } => ('f', Color(80, 200, 80)),
        BehaviorState::Working { .. } => ('g', Color(210, 140, 60)),
        BehaviorState::Sleeping { .. } => ('z', Color(100, 100, 180)),
        BehaviorState::FleeHome { .. } => ('!', Color(255, 60, 60)),
        BehaviorState::Exploring { .. } => ('?', Color(160, 220, 160)),
        BehaviorState::Captured => ('x', Color(120, 30, 30)),
        BehaviorState::Eating { .. } => ('@', Color(80, 200, 255)),
        BehaviorState::Hunting => ('@', Color(80, 200, 255)),
        BehaviorState::AtHome { .. } => ('@', Color(80, 200, 255)),
    }
}

/// Map-mode glyph and color of a predator.
pub open spec fn map_predator_look(state: BehaviorState) -> (char, Color) {
    match state {
        BehaviorState::Hunting => ('W', rgb(255, 40, 40)),
        _ => ('w', rgb(200, 50, 50)),
    }
}

/// Map-mode glyph and color of a predator.
pub fn map_predator_visual(state: &BehaviorState) -> (r: (char, Color))
    ensures
        r == map_predator_look(*state),
{
    match state {
        BehaviorState::Hunting => ('W', Color(255, 40, 40)),
        _ => ('w', Color(200, 50, 50)),
    }
}

/// Map-mode glyph and color of a prey animal; hidden while in its den.
pub open spec fn map_prey_look(state: BehaviorState) -> Option<(char, Color)> {
    match state {
        BehaviorState::AtHome { .. } => None,
        BehaviorState::Eating { .. } => Some(('r', rgb(140, 200, 90))),
        BehaviorState::FleeHome { .. } => Some(('!', rgb(255, 150, 50))),
        BehaviorState::Captured => Some(('x', rgb(200, 50, 50))),
        _ => Some(('r', rgb(190, 155, 90))),
    }
}

/// Map-mode glyph and color of a prey animal; `None` while hidden in its den.
pub fn map_prey_visual(state: &BehaviorState) -> (r: Option<(char, Color)>)
    ensures
        r == map_prey_look(*state),
{
    match state {
        BehaviorState::AtHome { .. } => None,  // hidden in den
        BehaviorState::Eating { .. } => Some(('r', Color(140, 200, 90))),
        BehaviorState::FleeHome { .. } => Some(('!', Color(255, 150, 50))),
        BehaviorState::Captured => Some(('x', Color(200, 50, 50))),
        _ => Some(('r', Color(190, 155, 90))),
    }
}

/// Map-mode glyph and color of an entity; `None` for hidden entities.
pub open spec fn map_mode_look(species: Species, state: BehaviorState) -> Option<(char, Color)> {
    match species {
        Species::Villager => Some(map_villager_look(state)),
        Species::Predator => Some(map_predator_look(state)),
        Species::Prey => map_prey_look(state),
    }
}

/// Map Mode glyph + color for an entity, keyed on (species, behavior_state).
/// Returns `None` for entities that should be hidden (e.g. prey at home).
pub fn map_mode_entity_visual(species: Species, state: &BehaviorState) -> (r: Option<(char, Color)>)
    ensures
        r == map_mode_look(species, *state),
{
    match species {
        Species::Villager => Some(map_villager_visual(state)),
        Species::Predator => Some(map_predator_visual(state)),
        Species::Prey => map_prey_visual(state),
    }
}

// ---------------------------------------------------------------------------
// Landscape Mode entity visuals: simple glyphs, saturated colors by state.
// Color carries meaning, not the glyph.
// ---------------------------------------------------------------------------

/// Landscape-mode glyph and color of a villager.
pub open spec fn landscape_villager_look(state: BehaviorState) -> (char, Color) {
    match state {
        BehaviorState::Idle { .. } | BehaviorState::Wander { .. } => ('o', rgb(240, 220, 180)),
        BehaviorState::Seek { .. } => ('o', rgb(200, 200, 150)),
        BehaviorState::Gathering { .. } => ('o', rgb(180, 220, 120)),
        BehaviorState::Hauling { .. } => ('o', rgb(200, 200, 140)),
        BehaviorState::Building { .. } => ('o', rgb(220, 180, 100)),
        BehaviorState::Farming { .. } => ('o', rgb(140, 200, 100)),
        BehaviorState::Working { .. } => ('o', rgb(220, 180, 100)),
        BehaviorState::Sleeping { .. } => ('o', rgb(120, 120, 160)),
        BehaviorState::FleeHome { .. } => ('o', rgb(255, 100, 80)),
        BehaviorState::Exploring { .. } => ('o', rgb(180, 220, 240)),
        BehaviorState::Eating { .. } => ('o', rgb(240, 220, 180)),
        BehaviorState::Captured => ('x', rgb(200, 50, 50)),
        BehaviorState::Hunting => ('o', rgb(240, 220, 180)),
        BehaviorState::AtHome { .. } => ('o', rgb(120, 120, 140)),
    }
}

/// Landscape-mode glyph and color of a villager.
pub fn landscape_villager_visual(state: &BehaviorState) -> (r: (char, Color))
    ensures
        r == landscape_villager_look(*state),
{
    match state {
        BehaviorState::Idle { .. } | BehaviorState::Wander { .. } => {
            ('o', Color(240, 220, 180))  // warm cream
        },
        BehaviorState::Seek { .. } => ('o', Color(200, 200, 150)),
        BehaviorState::Gathering { .. } => ('o', Color(180, 220, 120)),  // spring green
        BehaviorState::Hauling { .. } => ('o', Color(200, 200, 140)),  // laden, slightly dim
        BehaviorState::Building { .. } => ('o', Color(220, 180, 100)),  // warm amber
        BehaviorState::Farming { .. } => ('o', Color(140, 200, 100)),  // earthy green
        BehaviorState::Working { .. } => ('o', Color(220, 180, 100)),  // warm amber
        BehaviorState::Sleeping { .. } => ('o', Color(120, 120, 160)),  // cool, dormant
        BehaviorState::FleeHome { .. } => ('o', Color(255, 100, 80)),  // alarm red
        BehaviorState::Exploring { .. } => ('o', Color(180, 220, 240)),  // sky blue
        BehaviorState::Eating { .. } => ('o', Color(240, 220, 180)),
        BehaviorState::Captured => ('x', Color(200, 50, 50)),
        BehaviorState::Hunting => ('o', Color(240, 220, 180)),
        BehaviorState::AtHome { .. } => ('o', Color(120, 120, 140)),
    }
}

/// Landscape-mode glyph and color of a predator.
pub open spec fn landscape_predator_look(state: BehaviorState) -> (char, Color) {
    match state {
        BehaviorState::Hunting => ('w', rgb(255, 60, 60)),
        _ => ('w', rgb(220, 60, 60)),
    }
}

/// Landscape-mode glyph and color of a predator.
pub fn landscape_predator_visual(state: &BehaviorState) -> (r: (char, Color))
    ensures
        r == landscape_predator_look(*state),
{
    match state {
        BehaviorState::Hunting => ('w', Color(255, 60, 60)),  // aggressive red
        _ => ('w', Color(220, 60, 60)),  // red
    }
}

/// Landscape-mode glyph and color of a prey animal; hidden while in its den.
pub open spec fn landscape_prey_look(state: BehaviorState) -> Option<(char, Color)> {
    match state {
        BehaviorState::AtHome { .. } => None,
        BehaviorState::Captured => Some(('x', rgb(200, 50, 50))),
        _ => Some(('r', rgb(200, 200, 180))),
    }
}

/// Landscape-mode glyph and color of a prey animal; `None` while hidden in its den.
pub fn landscape_prey_visual(state: &BehaviorState) -> (r: Option<(char, Color)>)
    ensures
        r == landscape_prey_look(*state),
{
    match state {
        BehaviorState::AtHome { .. } => None,  // hidden in den
        BehaviorState::Captured => Some(('x', Color(200, 50, 50))),
        _ => Some(('r', Color(200, 200, 180))),  // soft, neutral
    }
}

/// Landscape-mode glyph and color of an entity; `None` for hidden entities.
pub open spec fn landscape_look(species: Species, state: BehaviorState) -> Option<(char, Color)> {
    match species {
        Species::Villager => Some(landscape_villager_look(state)),
        Species::Predator => Some(landscape_predator_look(state)),
        Species::Prey => landscape_prey_look(state),
    }
}

/// Landscape Mode glyph + color for an entity. Returns `None` for hidden entities.
pub fn landscape_entity_visual(species: Species, state: &BehaviorState) -> (r: Option<(char, Color)>)
    ensures
        r == landscape_look(species, *state),
{
    match species {
        Species::Villager => Some(landscape_villager_visual(state)),
        Species::Predator => Some(landscape_predator_visual(state)),
        Species::Prey => landscape_prey_visual(state),
    }
}

/// Map-mode marker glyph and color of a building's center tile.
pub open spec fn building_marker(bt: BuildingType) -> (char, Color) {
    match bt {
        BuildingType::Hut => ('\u{2302}', rgb(170, 140, 100)),
        BuildingType::Stockpile => ('\u{25A0}', rgb(190, 150, 60)),
        BuildingType::Farm => ('\u{2261}', rgb(90, 180, 60)),
        BuildingType::Workshop => ('\u{2699}', rgb(200, 180, 110)),
        BuildingType::Smithy => ('\u{2206}', rgb(200, 100, 40)),
        BuildingType::Garrison => ('\u{2694}', rgb(180, 50, 50)),
        BuildingType::Granary => ('G', rgb(200, 180, 80)),
        BuildingType::Bakery => ('B', rgb(210, 160, 90)),
        BuildingType::TownHall => ('H', rgb(255, 220, 60)),
        BuildingType::Wall => ('#', rgb(170, 150, 120)),
        BuildingType::Road => ('=', rgb(170, 145, 90)),
        BuildingType::Bridge => ('#', rgb(140, 100, 50)),
        BuildingType::Shelter => ('\u{2302}', rgb(140, 110, 70)),
    }
}

/// Map Mode glyph for a building type's center marker tile.
pub fn map_building_center_glyph(bt: &BuildingType) -> (r: (char, Color))
    ensures
        r == building_marker(*bt),
{
    match bt {
        BuildingType::Hut => ('\u{2302}', Color(170, 140, 100)),  // house
        BuildingType::Stockpile => ('\u{25A0}', Color(190, 150, 60)),  // filled square
        BuildingType::Farm => ('\u{2261}', Color(90, 180, 60)),  // triple bar
        BuildingType::Workshop => ('\u{2699}', Color(200, 180, 110)),  // gear
        BuildingType::Smithy => ('\u{2206}', Color(200, 100, 40)),  // increment
        BuildingType::Garrison => ('\u{2694}', Color(180, 50, 50)),  // crossed swords
        BuildingType::Granary => ('G', Color(200, 180, 80)),
        BuildingType::Bakery => ('B', Color(210, 160, 90)),
        BuildingType::TownHall => ('H', Color(255, 220, 60)),
        BuildingType::Wall => ('#', Color(170, 150, 120)),
        BuildingType::Road => ('=', Color(170, 145, 90)),
        BuildingType::Bridge => ('#', Color(140, 100, 50)),
        BuildingType::Shelter => ('\u{2302}', Color(140, 110, 70)),  // house, dimmer than Hut
    }
}

/// In Map and Landscape mode only prey can be hidden, and only while in its den.
pub proof fn law_only_denned_prey_is_hidden(species: Species, state: BehaviorState)
    ensures
        map_mode_look(species, state) is None <==> (species == Species::Prey && state is AtHome),
        landscape_look(species, state) is None <==> (species == Species::Prey && state is AtHome),
{
}

/// In Landscape mode a villager is always drawn as `o`, except a captured one (`x`).
pub proof fn law_landscape_villager_glyph(state: BehaviorState)
    ensures
        landscape_look(Species::Villager, state) == Some(landscape_villager_look(state)),
        landscape_villager_look(state).0 == if state is Captured {
            'x'
        } else {
            'o'
        },
{
}

/// Predators stand out: in Landscape mode they are a saturated red `w`, and in
/// Map mode a `W` while hunting and a `w` otherwise.
pub proof fn law_predator_looks(state: BehaviorState)
    ensures
        landscape_look(Species::Predator, state) matches Some((ch, color)) && ch == 'w' && color.0 > 200,
        map_mode_look(Species::Predator, state) matches Some((ch, _)) && ch == if state is Hunting {
            'W'
        } else {
            'w'
        },
{
}

/// The major buildings (hut, stockpile, farm, workshop, smithy, garrison,
/// granary, bakery, town hall).
pub open spec fn major_building(bt: BuildingType) -> bool {
    !(bt is Wall || bt is Road || bt is Bridge || bt is Shelter)
}

/// Center markers of the major buildings are pairwise distinct.
pub proof fn law_major_building_markers_distinct(a: BuildingType, b: BuildingType)
    requires
        major_building(a),
        major_building(b),
        a != b,
    ensures
        building_marker(a).0 != building_marker(b).0,
{
}

} // verus!
