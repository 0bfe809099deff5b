use vstd::prelude::*;

use crate::dirty::{DirtyMap, DirtyView};
use crate::modes::{following, mode_description, mode_label, GameInput, MilestoneBanner, OverlayMode, RenderMode};
use vstd::string::StringExecFns;
use crate::visuals::BuildingType;

verus! {

/// Width of the left-side UI panel in screen columns.
pub const PANEL_WIDTH: u16 = 24;

/// Terminal chars are about twice as tall as wide: each world tile gets this
/// many screen columns so the grid looks square.
pub const CELL_ASPECT: i32 = 2;

/// Top-left world tile shown on screen.
#[derive(Debug, Clone, Copy, PartialEq, Eq, Structural)]
pub struct Camera {
    pub x: i32,
    pub y: i32,
}

/// The player-facing view and control state of a game: camera, cursors,
/// modes and toggles that input events change.
#[derive(Debug, Clone, Copy, PartialEq, Eq, Structural)]
pub struct ViewState {
    pub camera: Camera,
    pub scroll_speed: i32,
    pub raining: bool,
    pub erosion_enabled: bool,
    pub day_night_enabled: bool,
    pub render_mode: RenderMode,
    pub paused: bool,
    pub query_mode: bool,
    /// Query cursor, world X.
    pub query_cx: i32,
    /// Query cursor, world Y.
    pub query_cy: i32,
    pub build_mode: bool,
    pub build_cursor_x: i32,
    pub build_cursor_y: i32,
    pub selected_building: BuildingType,
    pub auto_build: bool,
    pub overlay: OverlayMode,
    /// 1 = normal, 2 = 2x, 5 = 5x, 20 = 20x.
    pub game_speed: u32,
}

/// What the game must do after an input event, beyond the view state change.
#[derive(Debug, Clone, Copy, PartialEq, Eq, Structural)]
pub enum InputAction {
    Nothing,
    /// Announce the new render mode.
    ViewChanged(RenderMode),
    /// Announce the new game speed.
    SpeedChanged(u32),
    /// Try to place the selected building at the build cursor.
    PlaceBuilding,
    /// Drain all surface water.
    Drain,
    /// Handle a mouse click at screen coordinates.
    MouseClick { x: u16, y: u16 },
    /// Demolish whatever stands at the build cursor.
    Demolish { tile_x: i32, tile_y: i32 },
    /// Save the game.
    Save,
}

/// What the input handler reads from the rest of the game.
#[derive(Debug, Clone, Copy)]
pub struct InputContext {
    /// Screen size in columns and rows.
    pub screen: (u16, u16),
    /// Footprint (width, height) of the selected building type.
    pub selected_size: (u16, u16),
    /// World position of the settlement center.
    pub settlement: (i32, i32),
}

/// World columns visible beside the panel.
pub open spec fn visible_world_cols(screen_w: u16) -> int {
    let map_w: int = if screen_w >= PANEL_WIDTH {
        screen_w - PANEL_WIDTH
    } else {
        0
    };
    map_w / (CELL_ASPECT as int)
}

/// The overlay after `o` in the cycle None -> Tasks -> Resources -> Threats
/// -> Traffic -> Territory -> Wind -> WindFlow -> None; the height view also
/// leads back to none.
pub open spec fn next_overlay(o: OverlayMode) -> OverlayMode {
    match o {
        OverlayMode::Off => OverlayMode::Tasks,
        OverlayMode::Tasks => OverlayMode::Resources,
        OverlayMode::Resources => OverlayMode::Threats,
        OverlayMode::Threats => OverlayMode::Traffic,
        OverlayMode::Traffic => OverlayMode::Territory,
        OverlayMode::Territory => OverlayMode::Wind,
        OverlayMode::Wind => OverlayMode::WindFlow,
        OverlayMode::WindFlow => OverlayMode::Off,
        OverlayMode::Height => OverlayMode::Off,
    }
}

/// The speed after `s` in the cycle 1 -> 2 -> 5 -> 20 -> 1 (any other speed goes to 1).
pub open spec fn next_speed(s: u32) -> u32 {
    if s == 1 {
        2
    } else if s == 2 {
        5
    } else if s == 5 {
        20
    } else {
        1
    }
}

/// Index of the first `bt` in `types`, or 0 if it does not occur.
pub open spec fn type_position(types: Seq<BuildingType>, bt: BuildingType) -> int {
    if exists|i: int| 0 <= i < types.len() && types[i] == bt {
        choose|i: int| 0 <= i < types.len() && types[i] == bt && forall|j: int| 0 <= j < i ==> types[j] != bt
    } else {
        0
    }
}

/// The building type after `bt` in the list `types`, wrapping around.
pub open spec fn next_type(types: Seq<BuildingType>, bt: BuildingType) -> BuildingType {
    types[(type_position(types, bt) + 1) % (types.len() as int)]
}

/// Cursor coordinate clamped at 0, as a tile position.
pub open spec fn tile_of(c: i32) -> int {
    if c < 0 {
        0
    } else {
        c as int
    }
}

/// An input event can be handled without leaving `i32`: moved camera and
/// cursors stay representable, and a building list to cycle through is not empty.
pub open spec fn input_in_range(v: ViewState, input: GameInput, ctx: InputContext, types: Seq<BuildingType>) -> bool {
    let (vw, vh) = ctx.screen;
    match input {
        GameInput::ScrollUp => i32::MIN <= v.camera.y - v.scroll_speed <= i32::MAX,
        GameInput::ScrollDown => i32::MIN <= v.camera.y + v.scroll_speed <= i32::MAX,
        GameInput::ScrollLeft => i32::MIN <= v.camera.x - v.scroll_speed <= i32::MAX,
        GameInput::ScrollRight => i32::MIN <= v.camera.x + v.scroll_speed <= i32::MAX,
        GameInput::ToggleQueryMode => !v.query_mode ==> (v.camera.x + visible_world_cols(vw) / 2 <= i32::MAX
            && v.camera.y + vh / 2 <= i32::MAX),
        GameInput::QueryUp => v.query_mode ==> v.query_cy > i32::MIN,
        GameInput::QueryDown => v.query_mode ==> v.query_cy < i32::MAX,
        GameInput::QueryLeft => v.query_mode ==> v.query_cx > i32::MIN,
        GameInput::QueryRight => v.query_mode ==> v.query_cx < i32::MAX,
        GameInput::ToggleBuildMode => !v.build_mode ==> (v.camera.x + visible_world_cols(vw) / 2 <= i32::MAX
            && v.camera.y + vh / 2 <= i32::MAX),
        GameInput::BuildUp => v.build_mode ==> v.build_cursor_y > i32::MIN,
        GameInput::BuildDown => v.build_mode ==> v.build_cursor_y < i32::MAX,
        GameInput::BuildLeft => v.build_mode ==> v.build_cursor_x > i32::MIN,
        GameInput::BuildRight => v.build_mode ==> v.build_cursor_x < i32::MAX,
        GameInput::BuildCycleType => v.build_mode ==> types.len() > 0,
        GameInput::GotoSettlement => i32::MIN <= ctx.settlement.0 - visible_world_cols(vw) / 2
            && i32::MIN <= ctx.settlement.1 - vh / 2,
        _ => true,
    }
}

/// Whether `input` can be handled from view `v` without leaving `i32`, as
/// `input_in_range` states; callers test this before `handle_input`.
pub fn input_fits(v: &ViewState, input: GameInput, ctx: InputContext, types: &[BuildingType]) -> (ok: bool)
    ensures
        ok == input_in_range(*v, input, ctx, types@),
{
    let (vw, vh) = ctx.screen;
    let half_cols = world_view_cols(vw) as i64 / 2;
    let half_rows = vh as i64 / 2;
    let lo = i32::MIN as i64;
    let hi = i32::MAX as i64;
    let cx = v.camera.x as i64;
    let cy = v.camera.y as i64;
    let sp = v.scroll_speed as i64;
    match input {
        GameInput::ScrollUp => lo <= cy - sp && cy - sp <= hi,
        GameInput::ScrollDown => lo <= cy + sp && cy + sp <= hi,
        GameInput::ScrollLeft => lo <= cx - sp && cx - sp <= hi,
        GameInput::ScrollRight => lo <= cx + sp && cx + sp <= hi,
        GameInput::ToggleQueryMode | GameInput::ToggleBuildMode => {
            let on = if matches!(input, GameInput::ToggleQueryMode) {
                v.query_mode
            } else {
                v.build_mode
            };
            on || (cx + half_cols <= hi && cy + half_rows <= hi)
        },
        GameInput::QueryUp => !v.query_mode || v.query_cy > i32::MIN,
        GameInput::QueryDown => !v.query_mode || v.query_cy < i32::MAX,
        GameInput::QueryLeft => !v.query_mode || v.query_cx > i32::MIN,
        GameInput::QueryRight => !v.query_mode || v.query_cx < i32::MAX,
        GameInput::BuildUp => !v.build_mode || v.build_cursor_y > i32::MIN,
        GameInput::BuildDown => !v.build_mode || v.build_cursor_y < i32::MAX,
        GameInput::BuildLeft => !v.build_mode || v.build_cursor_x > i32::MIN,
        GameInput::BuildRight => !v.build_mode || v.build_cursor_x < i32::MAX,
        GameInput::BuildCycleType => !v.build_mode || types.len() > 0,
        GameInput::GotoSettlement => lo <= ctx.settlement.0 as i64 - half_cols && lo <= ctx.settlement.1 as i64
            - half_rows,
        _ => true,
    }
}

/// The view state after handling `input`.
pub open spec fn view_after(v: ViewState, input: GameInput, ctx: InputContext, types: Seq<BuildingType>) -> ViewState {
    let (vw, vh) = ctx.screen;
    match input {
        GameInput::ScrollUp => ViewState { camera: Camera { y: (v.camera.y - v.scroll_speed) as i32, ..v.camera }, ..v },
        GameInput::ScrollDown => ViewState { camera: Camera { y: (v.camera.y + v.scroll_speed) as i32, ..v.camera }, ..v },
        GameInput::ScrollLeft => ViewState { camera: Camera { x: (v.camera.x - v.scroll_speed) as i32, ..v.camera }, ..v },
        GameInput::ScrollRight => ViewState { camera: Camera { x: (v.camera.x + v.scroll_speed) as i32, ..v.camera }, ..v },
        GameInput::ToggleRain => ViewState { raining: !v.raining, ..v },
        GameInput::ToggleErosion => ViewState { erosion_enabled: !v.erosion_enabled, ..v },
        GameInput::ToggleDayNight => ViewState { day_night_enabled: !v.day_night_enabled, ..v },
        GameInput::ToggleDebugView => ViewState { render_mode: following(v.render_mode), ..v },
        GameInput::TogglePause => ViewState { paused: !v.paused, ..v },
        GameInput::ToggleQueryMode => if v.query_mode {
            ViewState { query_mode: false, ..v }
        } else {
            ViewState {
                query_mode: true,
                build_mode: false,
                query_cx: (v.camera.x + visible_world_cols(vw) / 2) as i32,
                query_cy: (v.camera.y + vh / 2) as i32,
                ..v
            }
        },
        GameInput::QueryUp => if v.query_mode { ViewState { query_cy: (v.query_cy - 1) as i32, ..v } } else { v },
        GameInput::QueryDown => if v.query_mode { ViewState { query_cy: (v.query_cy + 1) as i32, ..v } } else { v },
        GameInput::QueryLeft => if v.query_mode { ViewState { query_cx: (v.query_cx - 1) as i32, ..v } } else { v },
        GameInput::QueryRight => if v.query_mode { ViewState { query_cx: (v.query_cx + 1) as i32, ..v } } else { v },
        GameInput::ToggleBuildMode => if v.build_mode {
            ViewState { build_mode: false, ..v }
        } else {
            ViewState {
                build_mode: true,
                query_mode: false,
                build_cursor_x: (v.camera.x + visible_world_cols(vw) / 2) as i32,
                build_cursor_y: (v.camera.y + vh / 2) as i32,
                ..v
            }
        },
        GameInput::BuildUp => if v.build_mode { ViewState { build_cursor_y: (v.build_cursor_y - 1) as i32, ..v } } else { v },
        GameInput::BuildDown => if v.build_mode { ViewState { build_cursor_y: (v.build_cursor_y + 1) as i32, ..v } } else { v },
        GameInput::BuildLeft => if v.build_mode { ViewState { build_cursor_x: (v.build_cursor_x - 1) as i32, ..v } } else { v },
        GameInput::BuildRight => if v.build_mode { ViewState { build_cursor_x: (v.build_cursor_x + 1) as i32, ..v } } else { v },
        GameInput::BuildCycleType => if v.build_mode {
            ViewState { selected_building: next_type(types, v.selected_building), ..v }
        } else {
            v
        },
        GameInput::ToggleAutoBuild => ViewState { auto_build: !v.auto_build, ..v },
        GameInput::CycleOverlay => ViewState { overlay: next_overlay(v.overlay), ..v },
        GameInput::GotoSettlement => ViewState {
            camera: Camera {
                x: (ctx.settlement.0 - visible_world_cols(vw) / 2) as i32,
                y: (ctx.settlement.1 - vh / 2) as i32,
            },
            ..v
        },
        GameInput::CycleSpeed => ViewState { game_speed: next_speed(v.game_speed), ..v },
        // Advance exactly one tick, then stay paused
        GameInput::StepOneTick => ViewState { paused: true, ..v },
        _ => v,
    }
}

/// What the game must do after `input`, beyond the view state change.
pub open spec fn action_after(v: ViewState, input: GameInput) -> InputAction {
    match input {
        GameInput::ToggleDebugView => InputAction::ViewChanged(following(v.render_mode)),
        GameInput::CycleSpeed => InputAction::SpeedChanged(next_speed(v.game_speed)),
        GameInput::BuildPlace => if v.build_mode { InputAction::PlaceBuilding } else { InputAction::Nothing },
        GameInput::Drain => InputAction::Drain,
        GameInput::MouseClick { x, y } => InputAction::MouseClick { x, y },
        GameInput::Demolish => if v.build_mode {
            InputAction::Demolish { tile_x: v.build_cursor_x, tile_y: v.build_cursor_y }
        } else {
            InputAction::Nothing
        },
        GameInput::Save => InputAction::Save,
        _ => InputAction::Nothing,
    }
}

/// Redraw bookkeeping of `input`: a full redraw for view-wide changes, and
/// the old cursor position or building footprint for cursor moves.
pub open spec fn dirty_after(d: DirtyView, v: ViewState, input: GameInput, ctx: InputContext) -> DirtyView {
    let query_moves = input is QueryUp || input is QueryDown || input is QueryLeft || input is QueryRight;
    let build_moves = input is BuildUp || input is BuildDown || input is BuildLeft || input is BuildRight;
    if input is ToggleRain || input is ToggleDayNight || input is ToggleDebugView || input is CycleOverlay {
        d.with_all()
    } else if input is ToggleQueryMode || (query_moves && v.query_mode) {
        d.with_mark(tile_of(v.query_cx), tile_of(v.query_cy))
    } else if (input is ToggleBuildMode || build_moves) && v.build_mode {
        d.with_rect(tile_of(v.build_cursor_x), tile_of(v.build_cursor_y), ctx.selected_size.0 as int, ctx.selected_size.1 as int)
    } else {
        d
    }
}

/// Index of the first `bt` in `types`, or 0 if it does not occur.
fn position_of(types: &[BuildingType], bt: BuildingType) -> (r: usize)
    ensures
        r == type_position(types@, bt),
        types@.len() > 0 ==> r < types@.len(),
{
    let mut i: usize = 0;
    while i < types.len()
        invariant
            i <= types@.len(),
            forall|j: int| 0 <= j < i ==> types@[j] != bt,
        decreases types@.len() - i,
    {
        if types[i] == bt {
            proof {
                let p = type_position(types@, bt);
                assert(types@[i as int] == bt);
                assert(0 <= p < types@.len() && types@[p] == bt && forall|j: int| 0 <= j < p ==> types@[j] != bt);
                assert(p == i as int) by {
                    if p < i {
                        assert(types@[p] != bt);
                    }
                    if p > i {
                        assert(types@[i as int] != bt);
                    }
                }
            }
            return i;
        }
        i = i + 1;
    }
    0
}

fn clamp_tile(c: i32) -> (r: usize)
    ensures
        r == tile_of(c),
{
    if c < 0 {
        0
    } else {
        c as usize
    }
}

/// World columns visible beside the panel, computed from the screen width.
fn world_view_cols(screen_w: u16) -> (r: i32)
    ensures
        r == visible_world_cols(screen_w),
        0 <= r <= 32768,
{
    let map_w: i32 = if screen_w >= PANEL_WIDTH {
        (screen_w - PANEL_WIDTH) as i32
    } else {
        0
    };
    map_w / CELL_ASPECT
}

/// The view after a camera scroll.
fn scrolled(v: ViewState, input: GameInput, ctx: InputContext, types: &[BuildingType]) -> (r: ViewState)
    requires
        input is ScrollUp || input is ScrollDown || input is ScrollLeft || input is ScrollRight,
        input_in_range(v, input, ctx, types@),
    ensures
        r == view_after(v, input, ctx, types@),
{
    let mut r = v;
    match input {
        GameInput::ScrollUp => {
            r.camera.y = v.camera.y - v.scroll_speed;
        },
        GameInput::ScrollDown => {
            r.camera.y = v.camera.y + v.scroll_speed;
        },
        GameInput::ScrollLeft => {
            r.camera.x = v.camera.x - v.scroll_speed;
        },
        _ => {
            r.camera.x = v.camera.x + v.scroll_speed;
        },
    }
    r
}

/// The view after a query-mode toggle or query cursor move.
fn query_step(v: ViewState, input: GameInput, ctx: InputContext, types: &[BuildingType]) -> (r: ViewState)
    requires
        input is ToggleQueryMode || input is QueryUp || input is QueryDown || input is QueryLeft
            || input is QueryRight,
        input_in_range(v, input, ctx, types@),
    ensures
        r == view_after(v, input, ctx, types@),
{
    let mut r = v;
    match input {
        GameInput::ToggleQueryMode => {
            r.query_mode = !v.query_mode;
            if r.query_mode {
                r.build_mode = false;  // mutually exclusive
                // Center cursor on screen (account for panel)
                let world_vw = world_view_cols(ctx.screen.0);
                r.query_cx = v.camera.x + world_vw / 2;
                r.query_cy = v.camera.y + ctx.screen.1 as i32 / 2;
            }
        },
        GameInput::QueryUp => {
            if v.query_mode {
                r.query_cy = v.query_cy - 1;
            }
        },
        GameInput::QueryDown => {
            if v.query_mode {
                r.query_cy = v.query_cy + 1;
            }
        },
        GameInput::QueryLeft => {
            if v.query_mode {
                r.query_cx = v.query_cx - 1;
            }
        },
        _ => {
            if v.query_mode {
                r.query_cx = v.query_cx + 1;
            }
        },
    }
    r
}

/// The view after a build-mode toggle, build cursor move or building type change.
#[verifier::rlimit(40)]
fn build_step(v: ViewState, input: GameInput, ctx: InputContext, types: &[BuildingType]) -> (r: ViewState)
    requires
        input is ToggleBuildMode || input is BuildUp || input is BuildDown || input is BuildLeft
            || input is BuildRight || input is BuildCycleType,
        input_in_range(v, input, ctx, types@),
    ensures
        r == view_after(v, input, ctx, types@),
{
    let mut r = v;
    match input {
        GameInput::ToggleBuildMode => {
            r.build_mode = !v.build_mode;
            if r.build_mode {
                r.query_mode = false;  // mutually exclusive
                let world_vw = world_view_cols(ctx.screen.0);
                r.build_cursor_x = v.camera.x + world_vw / 2;
                r.build_cursor_y = v.camera.y + ctx.screen.1 as i32 / 2;
            }
        },
        GameInput::BuildUp => {
            if v.build_mode {
                r.build_cursor_y = v.build_cursor_y - 1;
            }
        },
        GameInput::BuildDown => {
            if v.build_mode {
                r.build_cursor_y = v.build_cursor_y + 1;
            }
        },
        GameInput::BuildLeft => {
            if v.build_mode {
                r.build_cursor_x = v.build_cursor_x - 1;
            }
        },
        GameInput::BuildRight => {
            if v.build_mode {
                r.build_cursor_x = v.build_cursor_x + 1;
            }
        },
        _ => {
            if v.build_mode {
                assert(input is BuildCycleType);
                assert(types@.len() > 0);
                let idx = position_of(types, v.selected_building);
                let n = types.len();
                let next = if idx >= n - 1 {
                    0
                } else {
                    idx + 1
                };
                assert(next as int == (idx + 1) % (n as int)) by (nonlinear_arith)
                    requires
                        idx < n,
                        next == if idx >= n - 1 { 0 } else { idx + 1 },
                ;
                r.selected_building = types[next];
            }
        },
    }
    r
}

/// The overlay after `o` in its cycle.
fn cycle_overlay(o: OverlayMode) -> (r: OverlayMode)
    ensures
        r == next_overlay(o),
{
    match o {
        OverlayMode::Off => OverlayMode::Tasks,
        OverlayMode::Tasks => OverlayMode::Resources,
        OverlayMode::Resources => OverlayMode::Threats,
        OverlayMode::Threats => OverlayMode::Traffic,
        OverlayMode::Traffic => OverlayMode::Territory,
        OverlayMode::Territory => OverlayMode::Wind,
        OverlayMode::Wind => OverlayMode::WindFlow,
        OverlayMode::WindFlow => OverlayMode::Off,
        OverlayMode::Height => OverlayMode::Off,
    }
}

/// The game speed after `s` in its cycle.
fn cycle_speed(s: u32) -> (r: u32)
    ensures
        r == next_speed(s),
{
    match s {
        1 => 2,
        2 => 5,
        5 => 20,
        _ => 1,
    }
}

/// The view after the toggles, overlay and speed changes and the jump to the
/// settlement; any other input leaves it as it is.
fn other_step(v: ViewState, input: GameInput, ctx: InputContext, types: &[BuildingType]) -> (r: ViewState)
    requires
        !(input is ScrollUp || input is ScrollDown || input is ScrollLeft || input is ScrollRight),
        !(input is ToggleQueryMode || input is QueryUp || input is QueryDown || input is QueryLeft
            || input is QueryRight),
        !(input is ToggleBuildMode || input is BuildUp || input is BuildDown || input is BuildLeft
            || input is BuildRight || input is BuildCycleType),
        input_in_range(v, input, ctx, types@),
    ensures
        r == view_after(v, input, ctx, types@),
{
    let mut r = v;
    match input {
        GameInput::ToggleRain => {
            r.raining = !v.raining;
        },
        GameInput::ToggleErosion => {
            r.erosion_enabled = !v.erosion_enabled;
        },
        GameInput::ToggleDayNight => {
            r.day_night_enabled = !v.day_night_enabled;
        },
        GameInput::ToggleDebugView => {
            r.render_mode = v.render_mode.next();
        },
        GameInput::TogglePause => {
            r.paused = !v.paused;
        },
        GameInput::ToggleAutoBuild => {
            r.auto_build = !v.auto_build;
        },
        GameInput::CycleOverlay => {
            r.overlay = cycle_overlay(v.overlay);
        },
        GameInput::GotoSettlement => {
            let world_vw = world_view_cols(ctx.screen.0);
            r.camera.x = ctx.settlement.0 - world_vw / 2;
            r.camera.y = ctx.settlement.1 - ctx.screen.1 as i32 / 2;
        },
        GameInput::CycleSpeed => {
            r.game_speed = cycle_speed(v.game_speed);
        },
        GameInput::StepOneTick => {
            // Advance exactly one tick then pause; the frame loop runs the tick
            r.paused = true;
        },
        _ => {},
    }
    r
}

/// Record what `input` leaves to redraw, judged from the view before it.
fn mark_for_input(dirty: &mut DirtyMap, v: &ViewState, input: GameInput, ctx: InputContext)
    requires
        old(dirty).wf(),
    ensures
        final(dirty).wf(),
        final(dirty)@ == dirty_after(old(dirty)@, *v, input, ctx),
{
    let query_moves = matches!(input, GameInput::QueryUp | GameInput::QueryDown | GameInput::QueryLeft | GameInput::QueryRight);
    let build_moves = matches!(input, GameInput::BuildUp | GameInput::BuildDown | GameInput::BuildLeft | GameInput::BuildRight);
    if matches!(input, GameInput::ToggleRain | GameInput::ToggleDayNight | GameInput::ToggleDebugView | GameInput::CycleOverlay) {
        dirty.mark_all();
    } else if matches!(input, GameInput::ToggleQueryMode) || (query_moves && v.query_mode) {
        // Mark old cursor position dirty to clean up artifacts
        dirty.mark(clamp_tile(v.query_cx), clamp_tile(v.query_cy));
    } else if (matches!(input, GameInput::ToggleBuildMode) || build_moves) && v.build_mode {
        // Mark old cursor footprint dirty to clean up artifacts
        let (bw, bh) = ctx.selected_size;
        dirty.mark_rect(clamp_tile(v.build_cursor_x), clamp_tile(v.build_cursor_y), bw as usize, bh as usize);
    }
}

/// The follow-up that `input` asks of the rest of the game.
fn follow_up(v: &ViewState, input: GameInput) -> (action: InputAction)
    ensures
        action == action_after(*v, input),
{
    match input {
        GameInput::ToggleDebugView => InputAction::ViewChanged(v.render_mode.next()),
        GameInput::CycleSpeed => InputAction::SpeedChanged(cycle_speed(v.game_speed)),
        GameInput::BuildPlace => if v.build_mode {
            InputAction::PlaceBuilding
        } else {
            InputAction::Nothing
        },
        GameInput::Drain => InputAction::Drain,
        GameInput::MouseClick { x, y } => InputAction::MouseClick { x, y },
        GameInput::Demolish => if v.build_mode {
            InputAction::Demolish { tile_x: v.build_cursor_x, tile_y: v.build_cursor_y }
        } else {
            InputAction::Nothing
        },
        GameInput::Save => InputAction::Save,
        // Load is handled by the outer loop; quit and restart need nothing here
        _ => InputAction::Nothing,
    }
}

/// Process a single input event at `tick`, changing the view state,
/// recording what needs redrawing and posting the notice of a view or speed
/// change. Returns the follow-up the rest of the game must perform
/// (building, draining, saving, mouse handling).
pub fn handle_input(
    view: &mut ViewState,
    dirty: &mut DirtyMap,
    notifications: &mut Vec<(u64, String)>,
    tick: u64,
    input: GameInput,
    ctx: InputContext,
    types: &[BuildingType],
) -> (action: InputAction)
    requires
        old(dirty).wf(),
        input_in_range(*old(view), input, ctx, types@),
    ensures
        final(dirty).wf(),
        *final(view) == view_after(*old(view), input, ctx, types@),
        final(dirty)@ == dirty_after(old(dirty)@, *old(view), input, ctx),
        action == action_after(*old(view), input),
        announced(old(notifications)@, final(notifications)@, tick, action),
{
    let v = *view;
    mark_for_input(dirty, &v, input, ctx);
    let action = follow_up(&v, input);
    announce_action(notifications, tick, action);
    if matches!(input, GameInput::ScrollUp | GameInput::ScrollDown | GameInput::ScrollLeft | GameInput::ScrollRight) {
        *view = scrolled(v, input, ctx, types);
    } else if matches!(input, GameInput::ToggleQueryMode | GameInput::QueryUp | GameInput::QueryDown | GameInput::QueryLeft | GameInput::QueryRight) {
        *view = query_step(v, input, ctx, types);
    } else if matches!(input, GameInput::ToggleBuildMode | GameInput::BuildUp | GameInput::BuildDown | GameInput::BuildLeft | GameInput::BuildRight | GameInput::BuildCycleType) {
        *view = build_step(v, input, ctx, types);
    } else {
        *view = other_step(v, input, ctx, types);
    }
    action
}

/// The notification announcing a change of view: the mode's label and, in
/// brackets, its description.
pub open spec fn view_notice_text(m: RenderMode) -> Seq<char> {
    "View: "@ + mode_label(m) + " ("@ + mode_description(m) + ")"@
}

/// The notification shown when the render mode changes to `mode`.
pub fn view_notice(mode: RenderMode) -> (s: String)
    ensures
        s@ == view_notice_text(mode),
{
    let mut s = String::from_str("View: ");
    s.append(mode.label());
    s.append(" (");
    s.append(mode.description());
    s.append(")");
    s
}

/// First panel row of the building buttons.
pub const BUILD_BUTTONS_ROW: u16 = 14;

/// The view after a click on panel row `sy`: a building button selects its
/// type and enters build mode (leaving query mode); the row after the
/// buttons and a blank toggles automatic building.
pub open spec fn panel_click_after(v: ViewState, sy: u16, types: Seq<BuildingType>) -> ViewState {
    if BUILD_BUTTONS_ROW <= sy < BUILD_BUTTONS_ROW + types.len() {
        ViewState {
            selected_building: types[sy - BUILD_BUTTONS_ROW],
            build_mode: true,
            query_mode: false,
            ..v
        }
    } else if sy == BUILD_BUTTONS_ROW + types.len() + 1 {
        ViewState { auto_build: !v.auto_build, ..v }
    } else {
        v
    }
}

/// The world tile under screen position `(sx, sy)` of the map area.
pub open spec fn clicked_tile(v: ViewState, sx: u16, sy: u16) -> (int, int) {
    (v.camera.x + (sx - PANEL_WIDTH) / (CELL_ASPECT as int), v.camera.y + sy)
}

/// The view after a click at screen position `(sx, sy)`: in the panel it
/// presses a button; on the map it moves the build cursor there in build
/// mode, and otherwise opens the query cursor there.
pub open spec fn mouse_click_after(v: ViewState, sx: u16, sy: u16, types: Seq<BuildingType>) -> ViewState {
    if sx < PANEL_WIDTH {
        panel_click_after(v, sy, types)
    } else {
        let (wx, wy) = clicked_tile(v, sx, sy);
        if v.build_mode {
            ViewState { build_cursor_x: wx as i32, build_cursor_y: wy as i32, ..v }
        } else {
            ViewState { query_mode: true, query_cx: wx as i32, query_cy: wy as i32, ..v }
        }
    }
}

/// Handle clicks on the left panel: building type buttons from row 14 on,
/// then, after a blank row, the automatic building toggle.
pub fn handle_panel_click(view: &mut ViewState, sy: u16, types: &[BuildingType])
    requires
        BUILD_BUTTONS_ROW + types@.len() + 1 <= u16::MAX,
    ensures
        *final(view) == panel_click_after(*old(view), sy, types@),
{
    let building_start = BUILD_BUTTONS_ROW;
    let n = types.len() as u16;
    let auto_build_row = building_start + n + 1;
    if sy >= building_start && sy < building_start + n {
        let idx = (sy - building_start) as usize;
        view.selected_building = types[idx];
        view.build_mode = true;
        view.query_mode = false;
    } else if sy == auto_build_row {
        view.auto_build = !view.auto_build;
    }
}

/// Handle a mouse click at screen position `(sx, sy)`. Returns whether a
/// building is to be placed at the (moved) build cursor.
pub fn handle_mouse_click(view: &mut ViewState, sx: u16, sy: u16, types: &[BuildingType]) -> (place: bool)
    requires
        BUILD_BUTTONS_ROW + types@.len() + 1 <= u16::MAX,
        sx >= PANEL_WIDTH ==> i32::MIN <= clicked_tile(*old(view), sx, sy).0 <= i32::MAX
            && i32::MIN <= clicked_tile(*old(view), sx, sy).1 <= i32::MAX,
    ensures
        *final(view) == mouse_click_after(*old(view), sx, sy, types@),
        place == (sx >= PANEL_WIDTH && old(view).build_mode),
{
    // Click in panel area: handle panel buttons
    if sx < PANEL_WIDTH {
        handle_panel_click(view, sy, types);
        return false;
    }
    // Click in map area: convert screen coords to world coords
    let map_sx = sx - PANEL_WIDTH;
    let wx = view.camera.x + map_sx as i32 / CELL_ASPECT;
    let wy = view.camera.y + sy as i32;
    if view.build_mode {
        // Move build cursor and place
        view.build_cursor_x = wx;
        view.build_cursor_y = wy;
        true
    } else {
        // Enter query mode at clicked position
        view.query_mode = true;
        view.query_cx = wx;
        view.query_cy = wy;
        false
    }
}

/// How many notifications the log keeps.
pub const MAX_NOTIFICATIONS: usize = 5;

/// The notification log after adding `msg` at `tick`: appended at the end,
/// and the oldest entry dropped once more than five are held.
pub open spec fn after_notify(log: Seq<(u64, String)>, tick: u64, msg: String) -> Seq<(u64, String)> {
    let grown = log.push((tick, msg));
    if grown.len() > MAX_NOTIFICATIONS {
        grown.subrange(1, grown.len() as int)
    } else {
        grown
    }
}

/// Record a notification shown to the player at `tick`, keeping only the last five.
pub fn notify(notifications: &mut Vec<(u64, String)>, tick: u64, msg: String)
    ensures
        final(notifications)@ == after_notify(old(notifications)@, tick, msg),
{
    notifications.push((tick, msg));
    // Keep only last 5 notifications
    if notifications.len() > MAX_NOTIFICATIONS {
        notifications.remove(0);
    }
}

/// Decimal digit `d` (0 to 9) as a character.
pub open spec fn digit_char(d: nat) -> char {
    (48 + d) as char
}

/// The decimal writing of `n`, without leading zeros.
pub open spec fn decimal(n: nat) -> Seq<char>
    decreases n,
{
    if n < 10 {
        seq![digit_char(n)]
    } else {
        decimal(n / 10).push(digit_char(n % 10))
    }
}

fn digit_text(d: u32) -> (s: &'static str)
    requires
        d < 10,
    ensures
        s@ == seq![digit_char(d as nat)],
{
    proof {
        reveal_strlit("0");
        reveal_strlit("1");
        reveal_strlit("2");
        reveal_strlit("3");
        reveal_strlit("4");
        reveal_strlit("5");
        reveal_strlit("6");
        reveal_strlit("7");
        reveal_strlit("8");
        reveal_strlit("9");
    }
    match d {
        0 => "0",
        1 => "1",
        2 => "2",
        3 => "3",
        4 => "4",
        5 => "5",
        6 => "6",
        7 => "7",
        8 => "8",
        _ => "9",
    }
}

/// `n` written in decimal.
pub fn decimal_text(n: u32) -> (s: String)
    ensures
        s@ == decimal(n as nat),
    decreases n,
{
    if n < 10 {
        String::from_str(digit_text(n))
    } else {
        let mut s = decimal_text(n / 10);
        s.append(digit_text(n % 10));
        proof {
            assert(s@ =~= decimal((n / 10) as nat).push(digit_char((n % 10) as nat)));
        }
        s
    }
}

/// The notification announcing a new game speed: "Speed: <n>x".
pub open spec fn speed_notice_text(speed: u32) -> Seq<char> {
    "Speed: "@ + decimal(speed as nat) + "x"@
}

/// The notification shown when the game speed changes to `speed`.
pub fn speed_notice(speed: u32) -> (s: String)
    ensures
        s@ == speed_notice_text(speed),
{
    let mut s = String::from_str("Speed: ");
    let digits = decimal_text(speed);
    s.append(digits.as_str());
    s.append("x");
    s
}

/// The text an input action announces to the player, if any.
pub open spec fn action_notice_text(action: InputAction) -> Option<Seq<char>> {
    match action {
        InputAction::ViewChanged(m) => Some(view_notice_text(m)),
        InputAction::SpeedChanged(speed) => Some(speed_notice_text(speed)),
        _ => None,
    }
}

/// The notification log `new` is `old` after the notice of `action` was
/// posted at `tick`: the log after `notify` with the notice's text, or the
/// same log when the action announces nothing.
pub open spec fn announced(old: Seq<(u64, String)>, new: Seq<(u64, String)>, tick: u64, action: InputAction) -> bool {
    match action_notice_text(action) {
        Some(text) => posted(old, new, tick, text),
        None => new == old,
    }
}

/// The notification log `new` is `old` after a notice reading `text` was
/// posted at `tick` with `notify`.
pub open spec fn posted(old: Seq<(u64, String)>, new: Seq<(u64, String)>, tick: u64, text: Seq<char>) -> bool {
    &&& new == after_notify(old, tick, new.last().1)
    &&& new.last().1@ == text
}

/// Post at `tick` the notification that an input action announces: the new
/// view after a view change, the new speed after a speed change; other
/// actions post nothing.
pub fn announce_action(notifications: &mut Vec<(u64, String)>, tick: u64, action: InputAction)
    ensures
        announced(old(notifications)@, final(notifications)@, tick, action),
{
    match action {
        InputAction::ViewChanged(mode) => notify(notifications, tick, view_notice(mode)),
        InputAction::SpeedChanged(speed) => notify(notifications, tick, speed_notice(speed)),
        _ => {},
    }
}

/// The notification log never grows past five entries, and the newest entry
/// is always the last one.
pub proof fn law_notification_log_bounded(log: Seq<(u64, String)>, tick: u64, msg: String)
    requires
        log.len() <= MAX_NOTIFICATIONS,
    ensures
        after_notify(log, tick, msg).len() == if log.len() < MAX_NOTIFICATIONS {
            log.len() + 1int
        } else {
            MAX_NOTIFICATIONS as int
        },
        after_notify(log, tick, msg).last() == (tick, msg),
        forall|i: int|
            0 <= i < after_notify(log, tick, msg).len() - 1 ==> #[trigger] after_notify(log, tick, msg)[i] == log[i
                + log.len() + 1 - after_notify(log, tick, msg).len()],
{
}


/// Ticks the simulation advances in frame number `frame_count` (counted
/// from one): exactly one for a single step, even while paused; none while
/// paused, or on odd frames at normal speed with the half-speed base; the game
/// speed otherwise.
pub open spec fn frame_ticks(
    step_one: bool,
    paused: bool,
    game_speed: u32,
    half_speed_base: bool,
    frame_count: u64,
) -> u32 {
    let skip = game_speed == 1 && half_speed_base && frame_count % 2 != 0;
    if step_one {
        1
    } else if !paused && !skip {
        game_speed
    } else {
        0
    }
}

/// How many simulation ticks to run in this frame, given the frame's input.
pub fn ticks_this_frame(view: &ViewState, input: GameInput, half_speed_base: bool, frame_count: u64) -> (n: u32)
    ensures
        n == frame_ticks(input is StepOneTick, view.paused, view.game_speed, half_speed_base, frame_count),
{
    let step_one = matches!(input, GameInput::StepOneTick);
    let skip_this_frame = view.game_speed == 1 && half_speed_base && frame_count % 2 != 0;
    if step_one {
        1
    } else if !view.paused && !skip_this_frame {
        view.game_speed
    } else {
        0
    }
}

/// In the game-over state every input but quit, restart and no input only
/// redraws the game-over screen.
pub open spec fn game_over_gate(game_over: bool, input: GameInput) -> bool {
    game_over && !(input is Quit || input is Restart || input is NoInput)
}

/// How a frame begins.
#[derive(Debug, Clone, Copy, PartialEq, Eq, Structural)]
pub enum FrameStart {
    /// Only the game-over screen is drawn, in full; nothing else happens.
    GameOverScreen,
    /// The input was handled; the simulation runs `ticks` ticks, and the
    /// rest of the game performs `action`.
    Run { ticks: u32, action: InputAction },
}

/// Begin a frame at `tick`: in the game-over state, other inputs than quit,
/// restart and no input only redraw everything; otherwise handle the input
/// (posting its notice), count
/// the frame and decide how many simulation ticks it runs (by the view after
/// the input: a single step runs one tick even when paused).
pub fn begin_frame(
    view: &mut ViewState,
    dirty: &mut DirtyMap,
    notifications: &mut Vec<(u64, String)>,
    tick: u64,
    game_over: bool,
    input: GameInput,
    ctx: InputContext,
    types: &[BuildingType],
    half_speed_base: bool,
    frame_count: &mut u64,
) -> (start: FrameStart)
    requires
        old(dirty).wf(),
        game_over_gate(game_over, input) || input_in_range(*old(view), input, ctx, types@),
        *old(frame_count) < u64::MAX,
    ensures
        final(dirty).wf(),
        game_over_gate(game_over, input) ==> {
            &&& start == FrameStart::GameOverScreen
            &&& *final(view) == *old(view)
            &&& final(dirty)@ == old(dirty)@.with_all()
            &&& *final(frame_count) == *old(frame_count)
            &&& final(notifications)@ == old(notifications)@
        },
        !game_over_gate(game_over, input) ==> {
            &&& *final(view) == view_after(*old(view), input, ctx, types@)
            &&& final(dirty)@ == dirty_after(old(dirty)@, *old(view), input, ctx)
            &&& *final(frame_count) == *old(frame_count) + 1
            &&& announced(old(notifications)@, final(notifications)@, tick, action_after(*old(view), input))
            &&& start == FrameStart::Run {
                ticks: frame_ticks(
                    input is StepOneTick,
                    final(view).paused,
                    final(view).game_speed,
                    half_speed_base,
                    *final(frame_count),
                ),
                action: action_after(*old(view), input),
            }
        },
{
    if game_over && !matches!(input, GameInput::Quit | GameInput::Restart | GameInput::NoInput) {
        // Game-over screen always redraws
        dirty.mark_all();
        return FrameStart::GameOverScreen;
    }
    let action = handle_input(view, dirty, notifications, tick, input, ctx, types);
    *frame_count = *frame_count + 1;
    let ticks = ticks_this_frame(view, input, half_speed_base, *frame_count);
    FrameStart::Run { ticks, action }
}

/// The whole view must be redrawn after a frame's ticks: the camera moved,
/// rain or a blizzard shows (in the lit modes), or the mode has dynamic
/// lighting (normal and landscape).
pub open spec fn redraw_all_needed(camera: Camera, prev: Camera, raining: bool, blizzard: bool, mode: RenderMode) -> bool {
    ||| camera != prev
    ||| ((raining || blizzard) && !(mode is MapView || mode is Debug))
    ||| mode is Normal
    ||| mode is Landscape
}

/// Before rendering: mark everything dirty when the camera scrolled (and
/// remember where it is now), while weather is visible, and in the modes with
/// dynamic lighting.
pub fn prepare_redraw(
    dirty: &mut DirtyMap,
    camera: Camera,
    prev_camera: &mut Camera,
    raining: bool,
    blizzard: bool,
    mode: RenderMode,
)
    requires
        old(dirty).wf(),
    ensures
        final(dirty).wf(),
        final(dirty)@ == if redraw_all_needed(camera, *old(prev_camera), raining, blizzard, mode) {
            old(dirty)@.with_all()
        } else {
            old(dirty)@
        },
        *final(prev_camera) == camera,
{
    // Dirty-rect: a camera scroll redraws everything
    if camera.x != prev_camera.x || camera.y != prev_camera.y {
        dirty.mark_all();
        *prev_camera = camera;
    }
    // Weather particles move every tick
    let weather_visible = (raining || blizzard) && !matches!(mode, RenderMode::MapView | RenderMode::Debug);
    if weather_visible {
        dirty.mark_all();
    }
    // Normal and landscape modes light every tile anew each tick
    if matches!(mode, RenderMode::Normal | RenderMode::Landscape) {
        dirty.mark_all();
    }
}

/// Notifications stay on screen for this many ticks.
pub const NOTIFICATION_TICKS: u64 = 200;

/// A notification posted at `entry.0` is still shown at `tick`.
pub open spec fn still_shown(tick: u64) -> spec_fn((u64, String)) -> bool {
    |entry: (u64, String)| tick - entry.0 < NOTIFICATION_TICKS
}

/// Drop the notifications that have been shown for 200 ticks or more,
/// keeping the others in order.
pub fn expire_notifications(notifications: &mut Vec<(u64, String)>, tick: u64)
    requires
        forall|i: int| 0 <= i < old(notifications)@.len() ==> #[trigger] old(notifications)@[i].0 <= tick,
    ensures
        final(notifications)@ == old(notifications)@.filter(still_shown(tick)),
{
    let ghost orig = notifications@;
    let mut kept: Vec<(u64, String)> = Vec::new();
    let ghost mut k: int = 0;
    while notifications.len() > 0
        invariant
            0 <= k <= orig.len(),
            notifications@ == orig.subrange(k, orig.len() as int),
            kept@ == orig.take(k).filter(still_shown(tick)),
            forall|i: int| 0 <= i < orig.len() ==> #[trigger] orig[i].0 <= tick,
        decreases notifications@.len(),
    {
        let entry = notifications.remove(0);
        proof {
            assert(entry == orig[k]);
            assert(orig.take(k + 1).drop_last() =~= orig.take(k));
            assert(orig.take(k + 1).last() == entry);
            reveal(Seq::filter);
        }
        if tick - entry.0 < NOTIFICATION_TICKS {
            kept.push(entry);
        }
        proof {
            k = k + 1;
            assert(notifications@ =~= orig.subrange(k, orig.len() as int));
        }
    }
    proof {
        assert(orig.take(k) =~= orig);
    }
    *notifications = kept;
}

/// The banner after one tick: its countdown drops by one and it is gone
/// once the countdown reaches zero.
pub open spec fn banner_after_tick(banner: Option<MilestoneBanner>) -> Option<MilestoneBanner> {
    match banner {
        Some(b) => if b.ticks_remaining <= 1 {
            None
        } else {
            Some(MilestoneBanner { ticks_remaining: (b.ticks_remaining - 1) as u32, ..b })
        },
        None => None,
    }
}

/// Count a milestone banner down by one tick, removing it when it runs out.
pub fn tick_banner(banner: &mut Option<MilestoneBanner>)
    ensures
        *final(banner) == banner_after_tick(*old(banner)),
{
    match banner.take() {
        Some(mut b) => {
            b.ticks_remaining = b.ticks_remaining.saturating_sub(1);
            if b.ticks_remaining != 0 {
                *banner = Some(b);
            }
        },
        None => {},
    }
}

/// Ticks a milestone banner stays on screen.
pub const BANNER_TICKS: u32 = 120;

/// The text logged for a milestone: the message behind a "[*] " marker.
pub open spec fn milestone_text(msg: Seq<char>) -> Seq<char> {
    seq!['[', '*', ']', ' '] + msg
}

/// Announce a milestone: show it in the banner for 120 ticks, and record it,
/// marked, in the event log and among the notifications.
pub fn notify_milestone(
    banner: &mut Option<MilestoneBanner>,
    event_log: &mut Vec<String>,
    notifications: &mut Vec<(u64, String)>,
    tick: u64,
    msg: &str,
)
    ensures
        final(banner).is_some(),
        final(banner).unwrap().message@ == msg@,
        final(banner).unwrap().ticks_remaining == BANNER_TICKS,
        final(event_log)@.len() == old(event_log)@.len() + 1,
        final(event_log)@.drop_last() == old(event_log)@,
        final(event_log)@.last()@ == milestone_text(msg@),
        final(notifications)@ == after_notify(old(notifications)@, tick, final(notifications)@.last().1),
        final(notifications)@.last().1@ == milestone_text(msg@),
{
    *banner = Some(MilestoneBanner { message: String::from_str(msg), ticks_remaining: BANNER_TICKS });
    let mut text = String::from_str("[*] ");
    text.append(msg);
    proof {
        reveal_strlit("[*] ");
        assert(text@ =~= milestone_text(msg@));
    }
    event_log.push(text.clone());
    notify(notifications, tick, text);
    proof {
        assert(event_log@.drop_last() =~= old(event_log)@);
    }
}

/// Query mode and build mode are never on together: no input event turns
/// both on from a view where at most one is on.
pub proof fn law_query_build_exclusive(v: ViewState, input: GameInput, ctx: InputContext, types: Seq<BuildingType>)
    requires
        !(v.query_mode && v.build_mode),
    ensures
        !(view_after(v, input, ctx, types).query_mode && view_after(v, input, ctx, types).build_mode),
{
    match input {
        GameInput::ScrollUp => {},
        GameInput::ScrollDown => {},
        GameInput::ScrollLeft => {},
        GameInput::ScrollRight => {},
        GameInput::ToggleRain => {},
        GameInput::ToggleErosion => {},
        GameInput::ToggleDayNight => {},
        GameInput::ToggleDebugView => {},
        GameInput::TogglePause => {},
        GameInput::ToggleQueryMode => {},
        GameInput::QueryUp => {},
        GameInput::QueryDown => {},
        GameInput::QueryLeft => {},
        GameInput::QueryRight => {},
        GameInput::ToggleBuildMode => {},
        GameInput::BuildUp => {},
        GameInput::BuildDown => {},
        GameInput::BuildLeft => {},
        GameInput::BuildRight => {},
        GameInput::BuildCycleType => {},
        GameInput::BuildPlace => {},
        GameInput::Drain => {},
        GameInput::ToggleAutoBuild => {},
        GameInput::CycleOverlay => {},
        GameInput::GotoSettlement => {},
        GameInput::CycleSpeed => {},
        GameInput::StepOneTick => {},
        GameInput::Demolish => {},
        GameInput::Save => {},
        GameInput::Load => {},
        GameInput::Quit => {},
        GameInput::Restart => {},
        GameInput::NoInput => {},
        GameInput::MouseClick { .. } => {},
    }
}

/// Pressing the overlay key eight times from no overlay walks through every
/// overlay but the height view and comes back to none.
pub proof fn law_overlay_cycle()
    ensures
        next_overlay(next_overlay(next_overlay(next_overlay(next_overlay(next_overlay(next_overlay(
            next_overlay(OverlayMode::Off)))))))) == OverlayMode::Off,
        forall|o: OverlayMode| o != OverlayMode::Height ==> #[trigger] next_overlay(o) != o,
{
}

/// The speed key cycles 1, 2, 5, 20 and back to 1.
pub proof fn law_speed_cycle(s: u32)
    requires
        s == 1 || s == 2 || s == 5 || s == 20,
    ensures
        next_speed(next_speed(next_speed(next_speed(s)))) == s,
        next_speed(s) == 1 || next_speed(s) == 2 || next_speed(s) == 5 || next_speed(s) == 20,
{
}

/// An on/off toggle pressed twice leaves the view as it was.
#[verifier::rlimit(60)]
pub proof fn law_toggle_twice_restores(v: ViewState, input: GameInput, ctx: InputContext, types: Seq<BuildingType>)
    requires
        input is ToggleRain || input is ToggleErosion || input is ToggleDayNight || input is TogglePause
            || input is ToggleAutoBuild,
    ensures
        view_after(view_after(v, input, ctx, types), input, ctx, types) == v,
{
    let w = view_after(v, input, ctx, types);
    match input {
        GameInput::ToggleRain => {
            assert(w == ViewState { raining: !v.raining, ..v });
        },
        GameInput::ToggleErosion => {
            assert(w == ViewState { erosion_enabled: !v.erosion_enabled, ..v });
        },
        GameInput::ToggleDayNight => {
            assert(w == ViewState { day_night_enabled: !v.day_night_enabled, ..v });
        },
        GameInput::TogglePause => {
            assert(w == ViewState { paused: !v.paused, ..v });
        },
        GameInput::ToggleAutoBuild => {
            assert(w == ViewState { auto_build: !v.auto_build, ..v });
        },
        _ => {},
    }
}

/// A banner counting down from `n` ticks is still shown after `n - 1` ticks
/// and gone after `n`.
pub proof fn law_banner_lasts_its_ticks(b: MilestoneBanner, n: nat)
    requires
        b.ticks_remaining == n,
        n >= 1,
    ensures
        banner_ticks_after(Some(b), (n - 1) as nat) is Some,
        banner_ticks_after(Some(b), n) is None,
    decreases n,
{
    if n > 1 {
        let next = MilestoneBanner { ticks_remaining: (b.ticks_remaining - 1) as u32, ..b };
        assert(banner_after_tick(Some(b)) == Some(next));
        law_banner_lasts_its_ticks(next, (n - 1) as nat);
        lemma_banner_ticks_shift(Some(b), (n - 2) as nat);
        lemma_banner_ticks_shift(Some(b), (n - 1) as nat);
    }
}

/// The banner after `k` ticks.
pub open spec fn banner_ticks_after(banner: Option<MilestoneBanner>, k: nat) -> Option<MilestoneBanner>
    decreases k,
{
    if k == 0 {
        banner
    } else {
        banner_after_tick(banner_ticks_after(banner, (k - 1) as nat))
    }
}

proof fn lemma_banner_ticks_shift(banner: Option<MilestoneBanner>, k: nat)
    ensures
        banner_ticks_after(banner, k + 1) == banner_ticks_after(banner_after_tick(banner), k),
    decreases k,
{
    if k == 0 {
        assert(banner_ticks_after(banner, 1) == banner_after_tick(banner_ticks_after(banner, 0)));
    } else {
        lemma_banner_ticks_shift(banner, (k - 1) as nat);
        assert(banner_ticks_after(banner, k + 1) == banner_after_tick(banner_ticks_after(banner, k)));
        assert(banner_ticks_after(banner_after_tick(banner), k) == banner_after_tick(
            banner_ticks_after(banner_after_tick(banner), (k - 1) as nat),
        ));
    }
}

/// Expiring notifications keeps exactly the ones posted fewer than 200
/// ticks ago, in their order.
pub proof fn law_expiry_keeps_recent(log: Seq<(u64, String)>, tick: u64)
    requires
        forall|i: int| 0 <= i < log.len() ==> #[trigger] log[i].0 <= tick,
    ensures
        forall|i: int| 0 <= i < log.filter(still_shown(tick)).len() ==> tick - #[trigger] log.filter(still_shown(tick))[i].0 < NOTIFICATION_TICKS,
        forall|i: int| 0 <= i < log.len() && tick - log[i].0 < NOTIFICATION_TICKS ==> log.filter(still_shown(tick)).contains(#[trigger] log[i]),
{
    broadcast use vstd::seq_lib::group_filter_ensures;
    assert forall|i: int| 0 <= i < log.filter(still_shown(tick)).len() implies tick - #[trigger] log.filter(still_shown(tick))[i].0 < NOTIFICATION_TICKS by {
        log.lemma_filter_pred(still_shown(tick), i);
    }
    assert forall|i: int| 0 <= i < log.len() && tick - log[i].0 < NOTIFICATION_TICKS implies log.filter(still_shown(tick)).contains(#[trigger] log[i]) by {
        log.lemma_filter_contains(still_shown(tick), i);
    }
}

} // verus!
