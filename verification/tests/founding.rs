use colony_sim::control::Camera;
use colony_sim::founding::found_settlement;
use colony_sim::modes::{OverlayMode, RenderMode};
use colony_sim::visuals::BuildingType;

#[test]
fn a_new_settlement_starts_with_its_stock_view_and_greeting() {
    let f = found_settlement(40, 30, 20, 15, true, false);
    assert_eq!(f.stock, (20, 60, 20));
    assert_eq!(f.peak_population, 3);
    assert_eq!(f.view.camera, Camera { x: -10, y: -8 });
    assert_eq!((f.view.query_cx, f.view.query_cy), (20, 15));
    assert_eq!((f.view.build_cursor_x, f.view.build_cursor_y), (20, 15));
    assert_eq!(f.view.selected_building, BuildingType::Wall);
    assert_eq!(f.view.render_mode, RenderMode::Normal);
    assert_eq!(f.view.overlay, OverlayMode::Off);
    assert_eq!((f.view.game_speed, f.view.scroll_speed), (1, 2));
    assert!(!f.view.paused && !f.view.build_mode && !f.view.query_mode && !f.view.auto_build);
    assert!(f.view.erosion_enabled && !f.view.day_night_enabled);
    assert!(f.dirty.is_dirty(39, 29) && f.dirty.is_dirty(0, 0));
    assert_eq!(f.prev_camera, Camera { x: i32::MIN, y: i32::MIN });
    assert_eq!(f.notifications, vec![(0, "Settlement founded! [b]uild, [k]query, arrows scroll".to_string())]);
}
