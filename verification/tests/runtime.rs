use std::collections::HashSet;

use quboid::action::Action;
use quboid::config::HotkeyBinding;
use quboid::geometry::{Point, Rect};
use quboid::hotkeys::{
    allocate_hotkey_id, plan_hotkeys, pressed_hotkey, HotkeyCombination, RegisteredHotkey, Registration,
    MAX_APPLICATION_HOTKEY_ID,
};
use quboid::runtime::{
    action_report, area_report, cycle_monitor, is_eligible_window, suspension_step, ApplyFailure, RuntimeEvent,
    SuspensionStep, monitor_order, plan_placement, runtime_gap, select_monitor,
    window_geometry_from, work_area_at, DragTracker, Placement, WindowGeometry, WS_EX_NOACTIVATE, WS_EX_TOOLWINDOW,
};

const LEFT: Rect = Rect { left: -1920, top: 0, right: 0, bottom: 1080 };
const RIGHT: Rect = Rect { left: 0, top: 0, right: 2560, bottom: 1440 };

#[test]
fn the_monitor_covering_most_of_the_window_is_chosen() {
    let works = [LEFT, RIGHT];
    assert_eq!(select_monitor(Rect::new(-500, 0, 100, 500), &works), Some(0));
    assert_eq!(select_monitor(Rect::new(-100, 0, 500, 500), &works), Some(1));
    // A tie goes to the last monitor, as the largest key does.
    assert_eq!(select_monitor(Rect::new(-300, 0, 300, 500), &works), Some(1));
    assert_eq!(select_monitor(Rect::new(5000, 0, 5100, 100), &works), None);
    assert_eq!(select_monitor(Rect::new(0, 0, 10, 10), &[]), None);
}

#[test]
fn a_drag_is_over_the_monitor_holding_the_cursor_or_the_nearest() {
    let works = [LEFT, RIGHT];
    assert_eq!(work_area_at(Point::new(-10, 10), &works), Some(LEFT));
    assert_eq!(work_area_at(Point::new(0, 10), &works), Some(RIGHT));
    assert_eq!(work_area_at(Point::new(-960, 1200), &works), Some(LEFT));
    assert_eq!(work_area_at(Point::new(2000, 2000), &works), Some(RIGHT));
    assert_eq!(work_area_at(Point::new(0, 0), &[]), None);
}

#[test]
fn monitor_actions_cycle_through_the_monitors() {
    assert_eq!(cycle_monitor(Action::NextMonitor, 0, 3), 1);
    assert_eq!(cycle_monitor(Action::NextMonitor, 2, 3), 0);
    assert_eq!(cycle_monitor(Action::PreviousMonitor, 0, 3), 2);
    assert_eq!(cycle_monitor(Action::PreviousMonitor, 1, 3), 0);
}

#[test]
fn placement_leaves_the_gap_only_where_the_action_does() {
    let visible = Rect::new(-1500, 100, -900, 700);
    let works = [LEFT, RIGHT];
    assert_eq!(plan_placement(Action::LeftHalf, visible, &works, 0, 10), Placement::At(Rect::new(-1910, 10, -970, 1070)));
    assert_eq!(plan_placement(Action::Center, visible, &works, 0, 10), Placement::At(Rect::new(-1260, 240, -660, 840)));
    assert_eq!(plan_placement(Action::NextMonitor, visible, &works, 0, 10), Placement::Across { from: LEFT, to: RIGHT });
    assert_eq!(plan_placement(Action::PreviousMonitor, visible, &works[..1], 0, 10), Placement::At(visible));
    assert_eq!(plan_placement(Action::Maximize, visible, &works, 0, 10), Placement::Invalid);
}

#[test]
fn the_frame_keeps_its_invisible_border_around_the_target() {
    let geometry = WindowGeometry { outer: Rect::new(93, 100, 907, 707), visible: Rect::new(100, 100, 900, 700) };
    assert_eq!(geometry.outer_for_visible(Rect::new(0, 0, 960, 1080)), Rect::new(-7, 0, 967, 1087));
}

#[test]
fn the_runtime_gap_is_capped() {
    assert_eq!(runtime_gap(12), 12);
    assert_eq!(runtime_gap(64), 64);
    assert_eq!(runtime_gap(500), 64);
}

#[test]
fn identifiers_skip_the_ones_in_use_and_run_out() {
    let mut used: HashSet<i32> = [1, 2, 4].into_iter().collect();
    let mut next = 1;
    assert_eq!(allocate_hotkey_id(&mut used, &mut next), Some(3));
    assert_eq!(next, 4);
    assert_eq!(allocate_hotkey_id(&mut used, &mut next), Some(5));
    assert!(used.contains(&5));

    let mut next = MAX_APPLICATION_HOTKEY_ID;
    assert_eq!(allocate_hotkey_id(&mut used, &mut next), Some(MAX_APPLICATION_HOTKEY_ID));
    assert_eq!(allocate_hotkey_id(&mut used, &mut next), None);
}

fn binding(action: Action, modifiers: u32, virtual_key: u32) -> HotkeyBinding {
    HotkeyBinding { action, modifiers, virtual_key }
}

#[test]
fn a_new_list_releases_keeps_and_registers_shortcuts() {
    let left = binding(Action::LeftHalf, 3, 0x25);
    let right = binding(Action::RightHalf, 3, 0x27);
    let held = vec![
        RegisteredHotkey { id: Some(1), combination: HotkeyCombination::from_binding(&left), registered: true, binding: left },
        RegisteredHotkey { id: Some(2), combination: HotkeyCombination::from_binding(&right), registered: true, binding: right },
    ];
    let grow = binding(Action::Grow, 3, 0x47);
    let moved_left = binding(Action::MoveLeft, 3, 0x25);

    let plan = plan_hotkeys(held, &[moved_left, grow], true);

    assert_eq!(plan.release, vec![2]);
    assert_eq!(plan.hotkeys.len(), 2);
    assert_eq!(plan.hotkeys[0].id, Some(1));
    assert_eq!(plan.hotkeys[0].binding, moved_left);
    assert!(plan.hotkeys[0].registered);
    assert_eq!(plan.hotkeys[1].id, Some(2));
    assert_eq!(plan.hotkeys[1].combination, HotkeyCombination::from_binding(&grow));
    assert!(!plan.hotkeys[1].registered);
    assert_eq!(plan.register, vec![Registration { index: 1, report_conflict: true }]);
}

#[test]
fn while_suspended_nothing_is_registered() {
    let grow = binding(Action::Grow, 3, 0x47);
    let plan = plan_hotkeys(Vec::new(), &[grow], false);
    assert!(plan.release.is_empty());
    assert_eq!(plan.hotkeys.len(), 1);
    assert_eq!(plan.hotkeys[0].id, Some(1));
    assert!(plan.register.is_empty());
}

#[test]
fn an_entry_the_system_refused_is_asked_for_again_without_a_report() {
    let left = binding(Action::LeftHalf, 3, 0x25);
    let held = vec![RegisteredHotkey {
        id: None,
        combination: HotkeyCombination::from_binding(&left),
        registered: false,
        binding: left,
    }];
    let plan = plan_hotkeys(held, &[left], true);
    assert!(plan.release.is_empty());
    assert_eq!(plan.hotkeys[0].id, Some(1));
    assert_eq!(plan.register, vec![Registration { index: 0, report_conflict: false }]);
}

#[test]
fn monitors_are_listed_left_to_right_then_top_to_bottom() {
    let works = [
        Rect::new(1920, 0, 3840, 1080),
        Rect::new(-1920, 0, 0, 1080),
        Rect::new(0, 1080, 1920, 2160),
        Rect::new(0, 0, 1920, 1080),
        Rect::new(-1920, 0, 0, 1040),
    ];
    // Equal corners keep the order the system reported them in.
    assert_eq!(monitor_order(&works), vec![1, 4, 3, 2, 0]);
    assert_eq!(monitor_order(&[]), Vec::<usize>::new());
}

#[test]
fn only_visible_top_level_uncloaked_windows_are_placed() {
    assert!(is_eligible_window(true, true, 0x0000_0100, Some(0)));
    assert!(is_eligible_window(true, true, 0, None));
    assert!(!is_eligible_window(false, true, 0, None));
    assert!(!is_eligible_window(true, false, 0, None));
    assert!(!is_eligible_window(true, true, WS_EX_TOOLWINDOW, None));
    assert!(!is_eligible_window(true, true, WS_EX_NOACTIVATE, None));
    assert!(!is_eligible_window(true, true, 0, Some(2)));
}

#[test]
fn invisible_frame_bounds_fall_back_to_the_frame() {
    let outer = Rect::new(0, 0, 100, 100);
    let visible = Rect::new(7, 0, 93, 93);
    assert_eq!(window_geometry_from(outer, Some(visible)), Some(WindowGeometry { outer, visible }));
    assert_eq!(window_geometry_from(outer, Some(Rect::new(5, 5, 5, 5))), Some(WindowGeometry { outer, visible: outer }));
    assert_eq!(window_geometry_from(outer, None), Some(WindowGeometry { outer, visible: outer }));
    assert_eq!(window_geometry_from(Rect::new(0, 0, 0, 0), None), None);
}

#[test]
fn a_drag_snaps_to_its_last_target_when_the_same_window_is_released() {
    let mut drags = DragTracker::new();
    assert!(!drags.start(7, false, None));
    assert!(!drags.follows(7, 0));
    assert!(drags.start(7, true, Some("editor.exe".to_owned())));
    assert_eq!(drags.application(), Some("editor.exe"));
    assert!(drags.follows(7, 0));
    assert!(!drags.follows(7, 3));
    assert!(!drags.follows(8, 0));
    drags.set_target(Some(Rect::new(0, 0, 960, 1080)));
    assert_eq!(drags.finish(8), None);
    assert!(drags.start(7, true, None));
    drags.set_target(Some(Rect::new(0, 0, 960, 1080)));
    assert_eq!(drags.finish(7), Some(Rect::new(0, 0, 960, 1080)));
    assert_eq!(drags.finish(7), None);
}

#[test]
fn outcomes_are_reported_as_events() {
    let rect = Some(Rect::new(0, 0, 10, 10));
    assert!(matches!(action_report(Action::Grow, Ok(rect)), RuntimeEvent::Applied { action: Action::Grow, rect: r } if r == rect));
    assert!(matches!(action_report(Action::Grow, Err(ApplyFailure::NoActiveWindow)), RuntimeEvent::NoActiveWindow));
    assert!(matches!(
        action_report(Action::Grow, Err(ApplyFailure::System { code: 5, message: "denied".to_owned() })),
        RuntimeEvent::AccessDenied
    ));
    assert!(matches!(
        action_report(Action::Grow, Err(ApplyFailure::System { code: 6, message: "bad handle".to_owned() })),
        RuntimeEvent::Failed(message) if message == "bad handle"
    ));
    assert!(matches!(
        area_report(Err(ApplyFailure::InvalidArea)),
        RuntimeEvent::Failed(message) if message == "the requested area is outside the normalized range"
    ));
    assert!(matches!(area_report(Ok(Rect::new(0, 0, 5, 5))), RuntimeEvent::AreaApplied { .. }));
}

#[test]
fn suspension_changes_only_when_asked_for_the_other_state() {
    assert_eq!(suspension_step(true, false), SuspensionStep::Suspend);
    assert_eq!(suspension_step(false, true), SuspensionStep::Resume);
    assert_eq!(suspension_step(true, true), SuspensionStep::Keep);
    assert_eq!(suspension_step(false, false), SuspensionStep::Keep);
}

#[test]
fn a_press_runs_the_shortcut_held_under_its_identifier() {
    let left = binding(Action::LeftHalf, 3, 0x25);
    let right = binding(Action::RightHalf, 3, 0x27);
    let held = [
        RegisteredHotkey { id: Some(1), combination: HotkeyCombination::from_binding(&left), registered: false, binding: left },
        RegisteredHotkey { id: Some(2), combination: HotkeyCombination::from_binding(&right), registered: true, binding: right },
    ];
    assert_eq!(pressed_hotkey(&held, false, 2), Some(1));
    assert_eq!(pressed_hotkey(&held, false, 1), None);
    assert_eq!(pressed_hotkey(&held, true, 2), None);
}
