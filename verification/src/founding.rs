use vstd::prelude::*;

use crate::control::{notify, Camera, ViewState};
use crate::dirty::{DirtyMap, DirtyView};
use crate::modes::{OverlayMode, RenderMode};
use crate::visuals::BuildingType;

verus! {

/// The greeting of a new settlement.
pub open spec fn founding_text() -> Seq<char> {
    "Settlement founded! [b]uild, [k]query, arrows scroll"@
}

/// The view of a new game around settlement center `(scx, scy)`: the camera
/// 30 columns left and 23 rows above the center, both cursors on the center,
/// walls selected, normal mode at normal speed, nothing paused or toggled on
/// (erosion and the day-night cycle as the simulation settings say).
pub open spec fn founding_view(scx: int, scy: int, erosion_enabled: bool, day_night_enabled: bool) -> ViewState {
    ViewState {
        camera: Camera { x: (scx - 30) as i32, y: (scy - 23) as i32 },
        scroll_speed: 2,
        raining: false,
        erosion_enabled,
        day_night_enabled,
        render_mode: RenderMode::Normal,
        paused: false,
        query_mode: false,
        query_cx: scx as i32,
        query_cy: scy as i32,
        build_mode: false,
        build_cursor_x: scx as i32,
        build_cursor_y: scy as i32,
        selected_building: BuildingType::Wall,
        auto_build: false,
        overlay: OverlayMode::Off,
        game_speed: 1,
    }
}

/// The library state of a new game.
pub struct Founding {
    pub view: ViewState,
    /// Everything is to be drawn in the first frame.
    pub dirty: DirtyMap,
    /// The camera of the previous frame: none yet, so the first frame redraws.
    pub prev_camera: Camera,
    pub notifications: Vec<(u64, String)>,
    /// Food, wood and stone in the stockpile.
    pub stock: (u32, u32, u32),
    pub peak_population: u32,
}

/// Set up the library state of a new game on a `width` x `height` map around
/// settlement center `(scx, scy)`: the founding view, everything dirty, the
/// previous camera unset, 20 food, 60 wood and 20 stone, three settlers, and
/// the greeting posted at tick 0.
pub fn found_settlement(
    width: usize,
    height: usize,
    scx: usize,
    scy: usize,
    erosion_enabled: bool,
    day_night_enabled: bool,
) -> (f: Founding)
    requires
        width * height + 63 <= usize::MAX,
        scx <= i32::MAX,
        scy <= i32::MAX,
    ensures
        f.view == founding_view(scx as int, scy as int, erosion_enabled, day_night_enabled),
        f.dirty.wf(),
        f.dirty@ == (DirtyView { width: width as nat, height: height as nat, all: true, marked: Set::empty() }),
        f.prev_camera == (Camera { x: i32::MIN, y: i32::MIN }),
        f.notifications@.len() == 1,
        f.notifications@[0].0 == 0,
        f.notifications@[0].1@ == founding_text(),
        f.stock == (20u32, 60u32, 20u32),
        f.peak_population == 3,
{
    let cx = scx as i32;
    let cy = scy as i32;
    let view = ViewState {
        camera: Camera { x: cx - 30, y: cy - 23 },
        scroll_speed: 2,
        raining: false,
        erosion_enabled,
        day_night_enabled,
        render_mode: RenderMode::Normal,
        paused: false,
        query_mode: false,
        query_cx: cx,
        query_cy: cy,
        build_mode: false,
        build_cursor_x: cx,
        build_cursor_y: cy,
        selected_building: BuildingType::Wall,
        auto_build: false,
        overlay: OverlayMode::Off,
        game_speed: 1,
    };
    let dirty = DirtyMap::new(width, height);
    let mut notifications: Vec<(u64, String)> = Vec::new();
    notify(&mut notifications, 0, String::from_str("Settlement founded! [b]uild, [k]query, arrows scroll"));
    proof {
        assert(dirty@ =~= (DirtyView { width: width as nat, height: height as nat, all: true, marked: Set::empty() }));
    }
    Founding {
        view,
        dirty,
        prev_camera: Camera { x: i32::MIN, y: i32::MIN },
        notifications,
        stock: (20, 60, 20),
        peak_population: 3,
    }
}

} // verus!
