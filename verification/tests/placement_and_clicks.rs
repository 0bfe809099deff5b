use colony_sim::control::{handle_mouse_click, handle_panel_click, Camera, ViewState};
use colony_sim::modes::{OverlayMode, RenderMode};
use colony_sim::placement::{footprint_fits, overlaps_build_site, reserve_footprint, stamp_footprint};
use colony_sim::tilemap::{Terrain, TileMap};
use colony_sim::visuals::BuildingType;

fn view() -> ViewState {
    ViewState {
        camera: Camera { x: 100, y: 50 },
        scroll_speed: 1,
        raining: false,
        erosion_enabled: false,
        day_night_enabled: false,
        render_mode: RenderMode::Normal,
        paused: false,
        query_mode: false,
        query_cx: 0,
        query_cy: 0,
        build_mode: false,
        build_cursor_x: 0,
        build_cursor_y: 0,
        selected_building: BuildingType::Hut,
        auto_build: false,
        overlay: OverlayMode::Off,
        game_speed: 1,
    }
}

const TYPES: [BuildingType; 3] = [BuildingType::Hut, BuildingType::Farm, BuildingType::Wall];

#[test]
fn map_click_opens_query_cursor_on_clicked_tile() {
    let mut v = view();
    assert!(!handle_mouse_click(&mut v, 34, 7, &TYPES));
    assert!(v.query_mode);
    // 10 columns into the map at two columns per tile
    assert_eq!((v.query_cx, v.query_cy), (105, 57));
}

#[test]
fn map_click_in_build_mode_moves_cursor_and_places() {
    let mut v = view();
    v.build_mode = true;
    assert!(handle_mouse_click(&mut v, 25, 0, &TYPES));
    assert_eq!((v.build_cursor_x, v.build_cursor_y), (100, 50));
    assert!(!v.query_mode);
}

#[test]
fn panel_buttons_select_building_and_toggle_auto_build() {
    let mut v = view();
    v.query_mode = true;
    assert!(!handle_mouse_click(&mut v, 3, 15, &TYPES));
    assert_eq!(v.selected_building, BuildingType::Farm);
    assert!(v.build_mode && !v.query_mode);
    handle_panel_click(&mut v, 18, &TYPES);
    assert!(v.auto_build);
    let before = v;
    handle_panel_click(&mut v, 17, &TYPES);
    handle_panel_click(&mut v, 2, &TYPES);
    assert_eq!(v, before);
}

#[test]
fn footprints_need_suitable_ground_on_the_map() {
    let mut map = TileMap::new(10, 10, Terrain::Grass);
    map.set(4, 4, Terrain::Mountain);
    map.set(8, 8, Terrain::Water);
    assert!(footprint_fits(&map, 0, 0, 3, 3, BuildingType::Hut));
    assert!(!footprint_fits(&map, 3, 3, 2, 2, BuildingType::Hut));
    assert!(!footprint_fits(&map, 8, 8, 3, 1, BuildingType::Farm));
    assert!(!footprint_fits(&map, -1, 0, 2, 2, BuildingType::Hut));
    assert!(footprint_fits(&map, 8, 8, 1, 1, BuildingType::Bridge));
    assert!(!footprint_fits(&map, 7, 8, 2, 1, BuildingType::Bridge));
}

#[test]
fn build_sites_overlap_by_rectangles() {
    let sites = vec![(5, 5, 3, 2)];
    assert!(overlaps_build_site(7, 6, 2, 2, &sites));
    assert!(!overlaps_build_site(8, 5, 2, 2, &sites));
    assert!(!overlaps_build_site(5, 7, 3, 1, &sites));
    assert!(!overlaps_build_site(0, 0, 9, 9, &Vec::new()));
}

#[test]
fn reserved_footprint_blocks_later_buildings() {
    let mut map = TileMap::new(6, 6, Terrain::Sand);
    reserve_footprint(&mut map, 1, 1, 2, 2, BuildingType::Hut);
    assert_eq!(map.get(1, 1), Some(&Terrain::BuildingFloor));
    assert_eq!(map.get(2, 2), Some(&Terrain::BuildingFloor));
    assert_eq!(map.get(3, 3), Some(&Terrain::Sand));
    assert!(!footprint_fits(&map, 2, 2, 2, 2, BuildingType::Farm));
    assert!(footprint_fits(&map, 3, 3, 2, 2, BuildingType::Farm));
    reserve_footprint(&mut map, 5, 5, 3, 3, BuildingType::Bridge);
    assert_eq!(map.get(5, 5), Some(&Terrain::Bridge));
}

#[test]
fn footprint_stamped_in_order_and_clipped() {
    let mut map = TileMap::new(5, 5, Terrain::Grass);
    let tiles = vec![
        (0, 0, Terrain::BuildingWall),
        (1, 0, Terrain::BuildingFloor),
        (0, 0, Terrain::BuildingFloor), // a later tile wins
        (-4, 0, Terrain::BuildingWall), // off the map
        (2, 1, Terrain::BuildingWall),
    ];
    stamp_footprint(&mut map, 3, 2, &tiles);
    assert_eq!(map.get(3, 2), Some(&Terrain::BuildingFloor));
    assert_eq!(map.get(4, 2), Some(&Terrain::BuildingFloor));
    assert_eq!(map.get(0, 2), Some(&Terrain::Grass));
    assert_eq!(map.get(2, 2), Some(&Terrain::Grass));
    // (5, 3) is off the map; nothing else changed
    let changed = (0..5).flat_map(|y| (0..5).map(move |x| (x, y))).filter(|&(x, y)| map.get(x, y) != Some(&Terrain::Grass)).count();
    assert_eq!(changed, 2);
}
