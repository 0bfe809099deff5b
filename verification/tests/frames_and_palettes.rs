use colony_sim::frame::{Cell, Color, FrameSnapshot};
use colony_sim::modes::RenderMode;
use colony_sim::palette::{landscape_season_tint, season_tint, Season};
use colony_sim::tilemap::Terrain;
use colony_sim::visuals::{
    predator_visual, prey_visual, villager_visual, BehaviorState, ResourceType, SeekReason, Velocity,
};

fn cell(ch: char) -> Cell {
    Cell { ch, fg: Color(200, 200, 200), bg: None }
}

fn frame(tick: u64, rows: &[&str]) -> FrameSnapshot {
    let cells: Vec<Vec<Cell>> = rows.iter().map(|r| r.chars().map(cell).collect()).collect();
    FrameSnapshot {
        tick,
        width: rows.first().map(|r| r.chars().count()).unwrap_or(0) as u16,
        height: rows.len() as u16,
        text: rows.join("\n"),
        cells,
    }
}

#[test]
fn diff_reports_changed_cells_in_order() {
    let a = frame(3, &["abc", "def"]);
    let b = frame(4, &["abx", "yef"]);
    let d = a.diff(&b);
    assert_eq!(d.from_tick, 3);
    assert_eq!(d.to_tick, 4);
    assert_eq!(d.changes.len(), 2);
    assert_eq!((d.changes[0].x, d.changes[0].y), (2, 0));
    assert_eq!(d.changes[0].old.ch, 'c');
    assert_eq!(d.changes[0].new.ch, 'x');
    assert_eq!((d.changes[1].x, d.changes[1].y), (0, 1));
    assert_eq!(d.changes[1].old.ch, 'd');
    assert_eq!(d.changes[1].new.ch, 'y');
}

#[test]
fn diff_of_identical_frames_is_empty() {
    let a = frame(1, &["hello", "world"]);
    let d = a.diff(&a.clone());
    assert!(d.changes.is_empty());
}

#[test]
fn diff_sees_color_changes() {
    let a = frame(1, &["a"]);
    let mut b = a.clone();
    b.cells[0][0].bg = Some(Color(1, 2, 3));
    let d = a.diff(&b);
    assert_eq!(d.changes.len(), 1);
    assert_eq!(d.changes[0].new.bg, Some(Color(1, 2, 3)));
}

#[test]
fn diff_compares_only_shared_cells() {
    let a = frame(1, &["abcd", "ef", "gh"]);
    let b = frame(2, &["xb", "eXZ"]);
    let d = a.diff(&b);
    let positions: Vec<(u16, u16)> = d.changes.iter().map(|c| (c.x, c.y)).collect();
    assert_eq!(positions, vec![(0, 0), (1, 1)]);
}

#[test]
fn render_mode_descriptions() {
    assert_eq!(RenderMode::Normal.description(), "atmospheric, full lighting");
    assert_eq!(RenderMode::MapView.description(), "symbolic, no lighting");
    assert_eq!(RenderMode::Landscape.description(), "painterly");
    assert_eq!(RenderMode::Debug.description(), "raw data");
    let mut m = RenderMode::Landscape;
    for _ in 0..4 {
        m = m.next();
    }
    assert_eq!(m, RenderMode::Landscape);
}

#[test]
fn season_tint_examples() {
    let c = Color(100, 200, 50);
    assert_eq!(season_tint(c, &Terrain::Grass, Season::Spring), Color(100, 215, 50));
    assert_eq!(season_tint(c, &Terrain::Forest, Season::Summer), Color(110, 210, 50));
    assert_eq!(season_tint(Color(200, 20, 5), &Terrain::Sapling, Season::Autumn), Color(255, 0, 0));
    // winter frost: average 90 pulls channels toward gray
    assert_eq!(season_tint(Color(90, 120, 60), &Terrain::Grass, Season::Winter), Color(90, 100, 100));
    assert_eq!(season_tint(Color(250, 230, 220), &Terrain::Sand, Season::Winter), Color(255, 255, 255));
    assert_eq!(season_tint(c, &Terrain::Sand, Season::Summer), c);
    assert_eq!(season_tint(c, &Terrain::Water, Season::Autumn), c);
    // saturation at the top of the range
    assert_eq!(season_tint(Color(0, 250, 0), &Terrain::Grass, Season::Spring), Color(0, 255, 0));
}

#[test]
fn landscape_season_tint_examples() {
    let c = Color(60, 120, 40);
    assert_eq!(landscape_season_tint(c, &Terrain::Grass, Season::Spring), Color(60, 135, 45));
    assert_eq!(landscape_season_tint(c, &Terrain::Grass, Season::Summer), Color(70, 125, 30));
    assert_eq!(landscape_season_tint(c, &Terrain::Grass, Season::Autumn), Color(110, 90, 35));
    assert_eq!(landscape_season_tint(c, &Terrain::Forest, Season::Winter), Color(50, 60, 55));
    assert_eq!(landscape_season_tint(Color(10, 10, 10), &Terrain::Snow, Season::Spring), Color(10, 10, 0));
    assert_eq!(landscape_season_tint(c, &Terrain::Mountain, Season::Winter), Color(75, 135, 65));
    assert_eq!(landscape_season_tint(c, &Terrain::Water, Season::Winter), c);
    assert_eq!(landscape_season_tint(c, &Terrain::Road, Season::Spring), c);
}

#[test]
fn normal_mode_visuals_use_heading() {
    let seek = BehaviorState::Seek { reason: SeekReason::Stockpile };
    assert_eq!(villager_visual(&seek, Velocity { dx: -1_000_000, dy: 0 }), ('<', Color(200, 180, 50)));
    let food = BehaviorState::Seek { reason: SeekReason::Food };
    assert_eq!(villager_visual(&food, Velocity { dx: -1_000_000, dy: 0 }), ('!', Color(220, 180, 50)));
    let haul = BehaviorState::Hauling { resource_type: ResourceType::Masonry };
    assert_eq!(villager_visual(&haul, Velocity { dx: 0, dy: 1_000_000 }), ('v', Color(200, 200, 210)));
    let gather = BehaviorState::Gathering { resource_type: ResourceType::Grain, timer: 1 };
    assert_eq!(villager_visual(&gather, Velocity { dx: 1_000_000, dy: 0 }), ('g', Color(180, 180, 100)));
    assert_eq!(villager_visual(&BehaviorState::Captured, Velocity { dx: 1_000_000, dy: 0 }), ('X', Color(200, 50, 50)));
    assert_eq!(predator_visual(&BehaviorState::Seek { reason: SeekReason::Food }, Velocity { dx: 0, dy: -1_000_000 }), ('^', Color(180, 60, 60)));
    assert_eq!(predator_visual(&BehaviorState::Hunting, Velocity { dx: 0, dy: -1_000_000 }), ('W', Color(255, 50, 50)));
    assert_eq!(predator_visual(&BehaviorState::Sleeping { timer: 1 }, Velocity { dx: 0, dy: -1_000_000 }), ('W', Color(160, 50, 50)));
    assert_eq!(prey_visual(&BehaviorState::AtHome { timer: 1 }), ('.', Color(100, 80, 50)));
    assert_eq!(prey_visual(&BehaviorState::Captured), ('x', Color(200, 50, 50)));
    assert_eq!(prey_visual(&BehaviorState::Hunting), ('r', Color(180, 140, 80)));
}

#[test]
fn applying_a_diff_rebuilds_the_next_frame() {
    let cell = |ch: char| Cell { ch, fg: Color(1, 2, 3), bg: None };
    let snap = |tick: u64, rows: Vec<Vec<Cell>>| FrameSnapshot {
        tick,
        width: rows[0].len() as u16,
        height: rows.len() as u16,
        text: String::new(),
        cells: rows,
    };
    let a = snap(1, vec![vec![cell('a'), cell('b'), cell('c')], vec![cell('d'), cell('e'), cell('f')]]);
    let b = snap(2, vec![vec![cell('a'), cell('x'), cell('c')], vec![cell('y'), cell('e'), cell('z')]]);
    let d = a.diff(&b);
    let mut rebuilt = a.cells.clone();
    for ch in &d.changes {
        assert_eq!(rebuilt[ch.y as usize][ch.x as usize], ch.old);
        rebuilt[ch.y as usize][ch.x as usize] = ch.new;
    }
    assert_eq!(rebuilt, b.cells);
    assert!(a.diff(&a).changes.is_empty());
}
