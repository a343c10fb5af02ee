use quboid::action::Action;
use quboid::config::HotkeyBinding;
use quboid::geometry::{Point, Rect};
use quboid::snap::{
    AllWindows, EdgeSnapResolver, RuntimeAdapters, ShortcutResolver, SingleActionShortcuts, SnapRequest,
    SnapResolver, WindowFilter,
};

const WORK: Rect = Rect { left: 0, top: 0, right: 1_920, bottom: 1_080 };

fn request(x: i32, y: i32, gap: i32) -> SnapRequest<'static> {
    SnapRequest { cursor: Point::new(x, y), work_area: WORK, gap, snap_threshold: 500, application: None }
}

#[test]
fn left_edge_snaps_to_the_left_half() {
    assert_eq!(EdgeSnapResolver.snap_target(request(2, 540, 0)), Some(Rect::new(0, 0, 960, 1_080)));
}

#[test]
fn corners_win_over_single_edges_and_honour_the_gap() {
    assert_eq!(EdgeSnapResolver.snap_target(request(2, 2, 10)), Some(Rect::new(10, 10, 950, 530)));
}

#[test]
fn the_top_edge_maximizes_without_a_gap() {
    assert_eq!(EdgeSnapResolver.snap_target(request(960, 1, 10)), Some(WORK));
}

#[test]
fn the_centre_of_the_work_area_never_snaps() {
    assert_eq!(EdgeSnapResolver.snap_target(request(960, 540, 0)), None);
    assert!(!request(960, 540, 0).near_edge());
}

#[test]
fn a_single_action_shortcut_always_resolves_to_its_binding() {
    let binding = HotkeyBinding { action: Action::LeftHalf, modifiers: 0x0003, virtual_key: 0x25 };

    assert_eq!(SingleActionShortcuts.resolve(&binding), Action::LeftHalf);
    assert_eq!(SingleActionShortcuts.resolve(&binding), Action::LeftHalf);
}

#[test]
fn every_window_is_managed_by_default() {
    assert!(AllWindows.allows(Some("editor.exe")));
    assert!(AllWindows.allows(None));
}

#[test]
fn the_threshold_is_a_share_of_the_shorter_side_within_bounds() {
    // 500 / 10000 of 1080 pixels.
    assert_eq!(request(0, 0, 0).threshold_pixels(), 54);
    let tiny = SnapRequest { snap_threshold: 1, ..request(0, 0, 0) };
    assert_eq!(tiny.threshold_pixels(), 8);
    let wide = SnapRequest { snap_threshold: 10_000, ..request(0, 0, 0) };
    assert_eq!(wide.threshold_pixels(), 96);
}

#[test]
fn each_edge_and_corner_snaps_to_its_own_area() {
    let mut resolver = EdgeSnapResolver;
    assert_eq!(resolver.snap_target(request(1_918, 540, 0)), Some(Rect::new(960, 0, 1_920, 1_080)));
    assert_eq!(resolver.snap_target(request(960, 1_079, 0)), Some(Rect::new(0, 540, 1_920, 1_080)));
    assert_eq!(resolver.snap_target(request(1_918, 2, 0)), Some(Rect::new(960, 0, 1_920, 540)));
    assert_eq!(resolver.snap_target(request(2, 1_078, 0)), Some(Rect::new(0, 540, 960, 1_080)));
    assert_eq!(resolver.snap_target(request(1_918, 1_078, 0)), Some(Rect::new(960, 540, 1_920, 1_080)));
    // 54 pixels away still counts as the edge; 55 does not.
    assert!(request(54, 540, 0).near_edge());
    assert!(!request(55, 540, 0).near_edge());
}

#[test]
fn the_default_adapters_snap_resolve_and_allow() {
    let mut adapters = RuntimeAdapters::default();
    assert_eq!(adapters.snap.snap_target(request(2, 540, 0)), Some(Rect::new(0, 0, 960, 1_080)));
    let binding = HotkeyBinding { action: Action::Grow, modifiers: 0x0003, virtual_key: 0x47 };
    assert_eq!(adapters.shortcuts.resolve(&binding), Action::Grow);
    assert!(adapters.windows.allows(Some("editor.exe")));
}
