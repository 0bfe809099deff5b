use vstd::prelude::*;

verus! {

/// How the world is drawn.
#[derive(Debug, Clone, Copy, PartialEq, Eq, Structural)]
pub enum RenderMode {
    /// Atmospheric view: lighting, seasons, water shimmer, weather effects.
    Normal,
    /// Symbolic map: flat colors, semantic glyphs, no lighting. Gameplay readability mode.
    MapView,
    /// Painterly landscape: texture chars, hand-picked palettes, full lighting.
    /// Color carries all meaning; characters are invisible surface noise.
    Landscape,
    /// Developer debug view: uppercase terrain letters, raw data.
    Debug,
}

/// The mode after `m` in the cycle Normal -> Map -> Landscape -> Debug -> Normal.
pub open spec fn following(m: RenderMode) -> RenderMode {
    match m {
        RenderMode::Normal => RenderMode::MapView,
        RenderMode::MapView => RenderMode::Landscape,
        RenderMode::Landscape => RenderMode::Debug,
        RenderMode::Debug => RenderMode::Normal,
    }
}

/// Status bar label of a mode.
pub open spec fn mode_label(m: RenderMode) -> Seq<char> {
    match m {
        RenderMode::Normal => "Normal"@,
        RenderMode::MapView => "Map"@,
        RenderMode::Landscape => "Landscape"@,
        RenderMode::Debug => "Debug"@,
    }
}

/// Notification subtitle of a mode.
pub open spec fn mode_description(m: RenderMode) -> Seq<char> {
    match m {
        RenderMode::Normal => "atmospheric, full lighting"@,
        RenderMode::MapView => "symbolic, no lighting"@,
        RenderMode::Landscape => "painterly"@,
        RenderMode::Debug => "raw data"@,
    }
}

impl RenderMode {
    /// Cycle to the next render mode: Normal -> Map -> Landscape -> Debug -> Normal.
    pub fn next(self) -> (r: Self)
        ensures
            r == following(self),
    {
        match self {
            RenderMode::Normal => RenderMode::MapView,
            RenderMode::MapView => RenderMode::Landscape,
            RenderMode::Landscape => RenderMode::Debug,
            RenderMode::Debug => RenderMode::Normal,
        }
    }

    /// Short status bar label.
    pub fn label(self) -> (r: &'static str)
        ensures
            r@ == mode_label(self),
    {
        match self {
            RenderMode::Normal => "Normal",
            RenderMode::MapView => "Map",
            RenderMode::Landscape => "Landscape",
            RenderMode::Debug => "Debug",
        }
    }

    /// Descriptive subtitle shown in notifications when the view changes.
    pub fn description(self) -> (r: &'static str)
        ensures
            r@ == mode_description(self),
    {
        match self {
            RenderMode::Normal => "atmospheric, full lighting",
            RenderMode::MapView => "symbolic, no lighting",
            RenderMode::Landscape => "painterly",
            RenderMode::Debug => "raw data",
        }
    }
}

/// Cycling the render mode visits every mode and returns after four steps.
pub proof fn law_render_mode_cycle(m: RenderMode)
    ensures
        following(following(following(following(m)))) == m,
        following(m) != m,
        following(following(m)) != m,
        following(following(following(m))) != m,
{
}

/// Every render mode has its own status label.
pub proof fn law_render_mode_labels_distinct(a: RenderMode, b: RenderMode)
    requires
        a != b,
    ensures
        mode_label(a) != mode_label(b),
{
    reveal_strlit("Normal");
    reveal_strlit("Map");
    reveal_strlit("Landscape");
    reveal_strlit("Debug");
    assert("Normal"@[0] != "Map"@[0]);
    assert("Normal"@[0] != "Landscape"@[0]);
    assert("Normal"@[0] != "Debug"@[0]);
    assert("Map"@[0] != "Landscape"@[0]);
    assert("Map"@[0] != "Debug"@[0]);
    assert("Landscape"@[0] != "Debug"@[0]);
}

/// Overlay drawn on top of the world view.
#[derive(Debug, Clone, Copy, PartialEq, Eq, Structural)]
pub enum OverlayMode {
    /// No overlay.
    Off,
    /// Color-code villagers by current activity.
    Tasks,
    /// Show resource locations with color markers.
    Resources,
    /// Show wolf positions and danger zones.
    Threats,
    /// Show foot traffic heatmap.
    Traffic,
    /// Show settlement influence/culture borders.
    Territory,
    /// Show wind direction arrows and speed.
    Wind,
    /// Show wind as animated particles (no arrows).
    WindFlow,
    /// Show raw height values as grayscale.
    Height,
}

/// One input event of the game loop.
#[derive(Debug, Clone, Copy, PartialEq, Eq, Structural)]
pub enum GameInput {
    Quit,
    ScrollUp,
    ScrollDown,
    ScrollLeft,
    ScrollRight,
    ToggleRain,
    ToggleErosion,
    ToggleDayNight,
    ToggleDebugView,
    TogglePause,
    ToggleQueryMode,
    QueryUp,
    QueryDown,
    QueryLeft,
    QueryRight,
    ToggleBuildMode,
    BuildCycleType,
    BuildPlace,
    BuildUp,
    BuildDown,
    BuildLeft,
    BuildRight,
    Drain,
    Save,
    Load,
    Restart,
    ToggleAutoBuild,
    CycleOverlay,
    GotoSettlement,
    Demolish,
    CycleSpeed,
    /// Advance exactly one sim tick.
    StepOneTick,
    /// Mouse click at screen coordinates (x, y).
    MouseClick { x: u16, y: u16 },
    /// No input this frame.
    NoInput,
}

/// Progress milestones of a settlement.
#[derive(Debug, Clone, Copy, PartialEq, Eq, Hash, Structural)]
pub enum Milestone {
    // Explore phase
    FirstWoodGathered,
    FirstStoneFound,
    FirstFarm,
    FirstHut,
    FirstWinterSurvived,
    // Expand phase
    PopulationTen,
    FirstWorkshop,
    FirstSmith,
    FirstRoad,
    FiveBuildings,
    // Exploit phase
    PopulationTwentyFive,
    FirstGranary,
    FirstBakery,
    FirstPlank,
    HundredFood,
    // Endure phase
    FirstGarrison,
    RaidSurvived,
    PopulationFifty,
}

/// Banner displayed when a milestone is achieved.
#[derive(Debug, Clone)]
pub struct MilestoneBanner {
    pub message: String,
    pub ticks_remaining: u32,
}

/// Threat tiers driven by settlement wealth (threat score).
/// Higher tiers unlock more dangerous threat types and larger groups.
#[derive(Debug, Clone, Copy, PartialEq, Eq, Structural)]
pub enum ThreatTier {
    /// Score 0-14: occasional lone wolf.
    Quiet,
    /// Score 15-29: wolf packs of 2-3.
    Growing,
    /// Score 30-49: scout raiders appear.
    Established,
    /// Score 50-74: raiding parties.
    Prosperous,
    /// Score 75+: coordinated assaults.
    Empire,
}

/// Colony-level knowledge of the world, shared across all villagers.
#[derive(Debug, Clone, Default)]
pub struct SettlementKnowledge {
    pub known_wood: Vec<(usize, usize)>,
    pub known_stone: Vec<(usize, usize)>,
    pub known_food: Vec<(usize, usize)>,
    pub frontier: Vec<(usize, usize)>,
}

} // verus!
