use colony_sim::control::{
    begin_frame, prepare_redraw, FrameStart,
    expire_notifications, handle_input, notify, notify_milestone, tick_banner, ticks_this_frame,
    Camera, InputAction, InputContext, ViewState,
};
use colony_sim::dirty::DirtyMap;
use colony_sim::modes::{GameInput, MilestoneBanner, OverlayMode, RenderMode};
use colony_sim::visuals::BuildingType;

fn view() -> ViewState {
    ViewState {
        camera: Camera { x: 10, y: 5 },
        scroll_speed: 3,
        raining: false,
        erosion_enabled: true,
        day_night_enabled: false,
        render_mode: RenderMode::Normal,
        paused: false,
        query_mode: false,
        query_cx: 0,
        query_cy: 0,
        build_mode: false,
        build_cursor_x: 0,
        build_cursor_y: 0,
        selected_building: BuildingType::Hut,
        auto_build: false,
        overlay: OverlayMode::Off,
        game_speed: 1,
    }
}

fn ctx() -> InputContext {
    InputContext { screen: (104, 40), selected_size: (3, 3), settlement: (100, 80) }
}

const TYPES: [BuildingType; 3] = [BuildingType::Hut, BuildingType::Farm, BuildingType::Wall];

#[test]
fn scrolling_moves_camera_by_scroll_speed() {
    let mut v = view();
    let mut d = DirtyMap::new(200, 200);
    d.clear();
    assert_eq!(handle_input(&mut v, &mut d, &mut Vec::new(), 0, GameInput::ScrollUp, ctx(), &TYPES), InputAction::Nothing);
    assert_eq!(v.camera, Camera { x: 10, y: 2 });
    handle_input(&mut v, &mut d, &mut Vec::new(), 0, GameInput::ScrollRight, ctx(), &TYPES);
    assert_eq!(v.camera, Camera { x: 13, y: 2 });
    assert!(!d.is_dirty(0, 0));
}

#[test]
fn query_mode_centers_cursor_beside_panel() {
    let mut v = view();
    v.build_mode = true;
    let mut d = DirtyMap::new(200, 200);
    d.clear();
    handle_input(&mut v, &mut d, &mut Vec::new(), 0, GameInput::ToggleQueryMode, ctx(), &TYPES);
    assert!(v.query_mode);
    assert!(!v.build_mode);
    // 104 columns minus a 24 column panel, two columns per tile: 40 tiles wide
    assert_eq!((v.query_cx, v.query_cy), (10 + 20, 5 + 20));
    // the old cursor spot at the origin is redrawn
    assert!(d.is_dirty(0, 0));
    handle_input(&mut v, &mut d, &mut Vec::new(), 0, GameInput::QueryLeft, ctx(), &TYPES);
    assert_eq!(v.query_cx, 29);
    assert!(d.is_dirty(30, 25));
}

#[test]
fn query_moves_ignored_outside_query_mode() {
    let mut v = view();
    let mut d = DirtyMap::new(50, 50);
    d.clear();
    handle_input(&mut v, &mut d, &mut Vec::new(), 0, GameInput::QueryDown, ctx(), &TYPES);
    assert_eq!(v, view());
    assert!(!d.is_dirty(0, 0));
}

#[test]
fn build_cursor_marks_old_footprint() {
    let mut v = view();
    let mut d = DirtyMap::new(200, 200);
    handle_input(&mut v, &mut d, &mut Vec::new(), 0, GameInput::ToggleBuildMode, ctx(), &TYPES);
    assert!(v.build_mode);
    assert_eq!((v.build_cursor_x, v.build_cursor_y), (30, 25));
    d.clear();
    handle_input(&mut v, &mut d, &mut Vec::new(), 0, GameInput::BuildDown, ctx(), &TYPES);
    assert_eq!(v.build_cursor_y, 26);
    assert!(d.is_dirty(30, 25));
    assert!(d.is_dirty(32, 27));
    assert!(!d.is_dirty(33, 25));
    assert!(!d.is_dirty(30, 28));
}

#[test]
fn build_type_cycles_and_wraps() {
    let mut v = view();
    v.build_mode = true;
    let mut d = DirtyMap::new(10, 10);
    handle_input(&mut v, &mut d, &mut Vec::new(), 0, GameInput::BuildCycleType, ctx(), &TYPES);
    assert_eq!(v.selected_building, BuildingType::Farm);
    handle_input(&mut v, &mut d, &mut Vec::new(), 0, GameInput::BuildCycleType, ctx(), &TYPES);
    assert_eq!(v.selected_building, BuildingType::Wall);
    handle_input(&mut v, &mut d, &mut Vec::new(), 0, GameInput::BuildCycleType, ctx(), &TYPES);
    assert_eq!(v.selected_building, BuildingType::Hut);
    // a type not in the list starts over from the second entry
    v.selected_building = BuildingType::Bakery;
    handle_input(&mut v, &mut d, &mut Vec::new(), 0, GameInput::BuildCycleType, ctx(), &TYPES);
    assert_eq!(v.selected_building, BuildingType::Farm);
}

#[test]
fn debug_view_cycles_render_mode_and_redraws_everything() {
    let mut v = view();
    let mut d = DirtyMap::new(20, 20);
    d.clear();
    let mut log: Vec<(u64, String)> = Vec::new();
    let action = handle_input(&mut v, &mut d, &mut log, 42, GameInput::ToggleDebugView, ctx(), &TYPES);
    assert_eq!(action, InputAction::ViewChanged(RenderMode::MapView));
    assert_eq!(log, vec![(42, "View: Map (symbolic, no lighting)".to_string())]);
    assert_eq!(v.render_mode, RenderMode::MapView);
    assert!(d.is_dirty(19, 19));
}

#[test]
fn overlay_cycles_back_to_none_after_eight_presses() {
    let mut v = view();
    let mut d = DirtyMap::new(5, 5);
    let expected = [
        OverlayMode::Tasks,
        OverlayMode::Resources,
        OverlayMode::Threats,
        OverlayMode::Traffic,
        OverlayMode::Territory,
        OverlayMode::Wind,
        OverlayMode::WindFlow,
        OverlayMode::Off,
    ];
    for o in expected {
        handle_input(&mut v, &mut d, &mut Vec::new(), 0, GameInput::CycleOverlay, ctx(), &TYPES);
        assert_eq!(v.overlay, o);
    }
    v.overlay = OverlayMode::Height;
    handle_input(&mut v, &mut d, &mut Vec::new(), 0, GameInput::CycleOverlay, ctx(), &TYPES);
    assert_eq!(v.overlay, OverlayMode::Off);
}

#[test]
fn speed_cycles_one_two_five_twenty() {
    let mut v = view();
    let mut d = DirtyMap::new(5, 5);
    let mut log: Vec<(u64, String)> = Vec::new();
    for s in [2u32, 5, 20, 1] {
        let action = handle_input(&mut v, &mut d, &mut log, 3, GameInput::CycleSpeed, ctx(), &TYPES);
        assert_eq!(action, InputAction::SpeedChanged(s));
        assert_eq!(v.game_speed, s);
        assert_eq!(log.last(), Some(&(3, format!("Speed: {}x", s))));
    }
    v.game_speed = 7;
    handle_input(&mut v, &mut d, &mut Vec::new(), 0, GameInput::CycleSpeed, ctx(), &TYPES);
    assert_eq!(v.game_speed, 1);
}

#[test]
fn follow_up_actions() {
    let mut v = view();
    let mut d = DirtyMap::new(5, 5);
    assert_eq!(handle_input(&mut v, &mut d, &mut Vec::new(), 0, GameInput::BuildPlace, ctx(), &TYPES), InputAction::Nothing);
    assert_eq!(handle_input(&mut v, &mut d, &mut Vec::new(), 0, GameInput::Demolish, ctx(), &TYPES), InputAction::Nothing);
    v.build_mode = true;
    v.build_cursor_x = 7;
    v.build_cursor_y = -2;
    assert_eq!(handle_input(&mut v, &mut d, &mut Vec::new(), 0, GameInput::BuildPlace, ctx(), &TYPES), InputAction::PlaceBuilding);
    assert_eq!(
        handle_input(&mut v, &mut d, &mut Vec::new(), 0, GameInput::Demolish, ctx(), &TYPES),
        InputAction::Demolish { tile_x: 7, tile_y: -2 }
    );
    assert_eq!(handle_input(&mut v, &mut d, &mut Vec::new(), 0, GameInput::Drain, ctx(), &TYPES), InputAction::Drain);
    assert_eq!(handle_input(&mut v, &mut d, &mut Vec::new(), 0, GameInput::Save, ctx(), &TYPES), InputAction::Save);
    assert_eq!(
        handle_input(&mut v, &mut d, &mut Vec::new(), 0, GameInput::MouseClick { x: 3, y: 9 }, ctx(), &TYPES),
        InputAction::MouseClick { x: 3, y: 9 }
    );
    assert_eq!(handle_input(&mut v, &mut d, &mut Vec::new(), 0, GameInput::Load, ctx(), &TYPES), InputAction::Nothing);
}

#[test]
fn step_one_tick_pauses_and_goto_settlement_centers_camera() {
    let mut v = view();
    let mut d = DirtyMap::new(5, 5);
    handle_input(&mut v, &mut d, &mut Vec::new(), 0, GameInput::StepOneTick, ctx(), &TYPES);
    assert!(v.paused);
    handle_input(&mut v, &mut d, &mut Vec::new(), 0, GameInput::GotoSettlement, ctx(), &TYPES);
    assert_eq!(v.camera, Camera { x: 80, y: 60 });
}

#[test]
fn toggles_flip_and_restore() {
    let mut v = view();
    let mut d = DirtyMap::new(5, 5);
    for input in [GameInput::ToggleRain, GameInput::ToggleErosion, GameInput::TogglePause, GameInput::ToggleAutoBuild, GameInput::ToggleDayNight] {
        handle_input(&mut v, &mut d, &mut Vec::new(), 0, input, ctx(), &TYPES);
        assert_ne!(v, view());
        handle_input(&mut v, &mut d, &mut Vec::new(), 0, input, ctx(), &TYPES);
        assert_eq!(v, view());
    }
}

#[test]
fn frame_ticks_follow_speed_pause_and_half_speed() {
    let mut v = view();
    assert_eq!(ticks_this_frame(&v, GameInput::NoInput, false, 1), 1);
    assert_eq!(ticks_this_frame(&v, GameInput::NoInput, true, 1), 0);
    assert_eq!(ticks_this_frame(&v, GameInput::NoInput, true, 2), 1);
    v.game_speed = 5;
    assert_eq!(ticks_this_frame(&v, GameInput::NoInput, true, 3), 5);
    v.paused = true;
    assert_eq!(ticks_this_frame(&v, GameInput::NoInput, false, 4), 0);
    assert_eq!(ticks_this_frame(&v, GameInput::StepOneTick, false, 4), 1);
}

#[test]
fn notifications_keep_last_five() {
    let mut log: Vec<(u64, String)> = Vec::new();
    for i in 0..7u64 {
        notify(&mut log, i, format!("n{}", i));
    }
    assert_eq!(log.len(), 5);
    assert_eq!(log[0], (2, "n2".to_string()));
    assert_eq!(log[4], (6, "n6".to_string()));
}

#[test]
fn notifications_expire_after_two_hundred_ticks() {
    let mut log = vec![(10u64, "a".to_string()), (150, "b".to_string()), (300, "c".to_string())];
    expire_notifications(&mut log, 349);
    assert_eq!(log, vec![(150, "b".to_string()), (300, "c".to_string())]);
    expire_notifications(&mut log, 350);
    assert_eq!(log, vec![(300, "c".to_string())]);
    expire_notifications(&mut log, 500);
    assert!(log.is_empty());
}

#[test]
fn banner_counts_down_and_disappears() {
    let mut banner = Some(MilestoneBanner { message: "x".to_string(), ticks_remaining: 2 });
    tick_banner(&mut banner);
    assert_eq!(banner.as_ref().map(|b| b.ticks_remaining), Some(1));
    tick_banner(&mut banner);
    assert!(banner.is_none());
    tick_banner(&mut banner);
    assert!(banner.is_none());
}

#[test]
fn milestone_sets_banner_and_logs_marked_text() {
    let mut banner = None;
    let mut events: Vec<String> = vec!["earlier".to_string()];
    let mut log: Vec<(u64, String)> = Vec::new();
    notify_milestone(&mut banner, &mut events, &mut log, 42, "First farm");
    let b = banner.unwrap();
    assert_eq!(b.message, "First farm");
    assert_eq!(b.ticks_remaining, 120);
    assert_eq!(events, vec!["earlier".to_string(), "[*] First farm".to_string()]);
    assert_eq!(log, vec![(42, "[*] First farm".to_string())]);
}

#[test]
fn view_change_notice_names_mode_and_description() {
    assert_eq!(colony_sim::control::view_notice(RenderMode::MapView), "View: Map (symbolic, no lighting)");
    assert_eq!(colony_sim::control::view_notice(RenderMode::Debug), "View: Debug (raw data)");
}

#[test]
fn actions_post_their_notices() {
    use_announce();
}

fn use_announce() {
    let mut log: Vec<(u64, String)> = Vec::new();
    colony_sim::control::announce_action(&mut log, 7, InputAction::ViewChanged(RenderMode::Landscape));
    colony_sim::control::announce_action(&mut log, 8, InputAction::SpeedChanged(20));
    colony_sim::control::announce_action(&mut log, 9, InputAction::Save);
    assert_eq!(
        log,
        vec![(7, "View: Landscape (painterly)".to_string()), (8, "Speed: 20x".to_string())]
    );
    assert_eq!(colony_sim::control::decimal_text(0), "0");
    assert_eq!(colony_sim::control::decimal_text(4_294_967_295), "4294967295");
    assert_eq!(colony_sim::control::speed_notice(5), "Speed: 5x");
}

#[test]
fn game_over_frames_only_redraw() {
    let mut v = view();
    let mut d = DirtyMap::new(4, 4);
    d.clear();
    let mut frames = 10u64;
    let start = begin_frame(&mut v, &mut d, &mut Vec::new(), 0, true, GameInput::ScrollUp, ctx(), &TYPES, false, &mut frames);
    assert_eq!(start, FrameStart::GameOverScreen);
    assert_eq!(v, view());
    assert_eq!(frames, 10);
    assert!(d.is_dirty(3, 3));
    let start = begin_frame(&mut v, &mut d, &mut Vec::new(), 0, true, GameInput::Quit, ctx(), &TYPES, false, &mut frames);
    assert_eq!(start, FrameStart::Run { ticks: 1, action: InputAction::Nothing });
    assert_eq!(frames, 11);
}

#[test]
fn frames_handle_input_then_run_ticks() {
    let mut v = view();
    let mut d = DirtyMap::new(4, 4);
    let mut frames = 0u64;
    let mut log: Vec<(u64, String)> = Vec::new();
    let start = begin_frame(&mut v, &mut d, &mut log, 9, false, GameInput::CycleSpeed, ctx(), &TYPES, true, &mut frames);
    assert_eq!(start, FrameStart::Run { ticks: 2, action: InputAction::SpeedChanged(2) });
    assert_eq!(log, vec![(9, "Speed: 2x".to_string())]);
    // in the game-over state a view toggle posts nothing
    let mut v2 = view();
    let start = begin_frame(&mut v2, &mut d, &mut log, 10, true, GameInput::ToggleDebugView, ctx(), &TYPES, true, &mut frames);
    assert_eq!(start, FrameStart::GameOverScreen);
    assert_eq!(log.len(), 1);
    let start = begin_frame(&mut v, &mut d, &mut Vec::new(), 0, false, GameInput::TogglePause, ctx(), &TYPES, true, &mut frames);
    assert_eq!(start, FrameStart::Run { ticks: 0, action: InputAction::Nothing });
    let start = begin_frame(&mut v, &mut d, &mut Vec::new(), 0, false, GameInput::StepOneTick, ctx(), &TYPES, true, &mut frames);
    assert_eq!(start, FrameStart::Run { ticks: 1, action: InputAction::Nothing });
    assert_eq!(frames, 3);
}

#[test]
fn tiles_off_the_map_are_dirty_only_when_everything_is() {
    let mut d = DirtyMap::new(4, 4);
    assert!(d.is_dirty(9, 9));
    d.clear();
    d.mark(9, 9);
    assert!(!d.is_dirty(9, 9));
    d.mark_rect(2, 2, 10, 10);
    assert!(d.is_dirty(3, 3));
    assert!(!d.is_dirty(5, 3));
}

#[test]
fn redraw_all_on_scroll_weather_or_lighting() {
    let mut d = DirtyMap::new(4, 4);
    d.clear();
    let mut prev = Camera { x: 0, y: 0 };
    prepare_redraw(&mut d, Camera { x: 0, y: 0 }, &mut prev, false, false, RenderMode::MapView);
    assert!(!d.is_dirty(1, 1));
    prepare_redraw(&mut d, Camera { x: 0, y: 0 }, &mut prev, true, false, RenderMode::Debug);
    assert!(!d.is_dirty(1, 1));
    prepare_redraw(&mut d, Camera { x: 2, y: 0 }, &mut prev, false, false, RenderMode::MapView);
    assert!(d.is_dirty(1, 1));
    assert_eq!(prev, Camera { x: 2, y: 0 });
    d.clear();
    prepare_redraw(&mut d, Camera { x: 2, y: 0 }, &mut prev, false, true, RenderMode::Landscape);
    assert!(d.is_dirty(0, 0));
    d.clear();
    prepare_redraw(&mut d, Camera { x: 2, y: 0 }, &mut prev, false, false, RenderMode::Normal);
    assert!(d.is_dirty(0, 0));
}
