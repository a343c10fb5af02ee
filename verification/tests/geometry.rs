use quboid::action::Action;
use quboid::geometry::{LayoutEngine, NormalizedRect, Point, Rect, MAX_GAP};

#[test]
fn standard_actions_match_known_negative_coordinate_layout() {
    let work = Rect::new(-1920, 0, 0, 1080);
    let current = Rect::new(-1500, 100, -900, 700);
    let cases = [
        (Action::LeftHalf, Rect::new(-1920, 0, -960, 1080)),
        (Action::RightHalf, Rect::new(-960, 0, 0, 1080)),
        (Action::TopHalf, Rect::new(-1920, 0, 0, 540)),
        (Action::BottomHalf, Rect::new(-1920, 540, 0, 1080)),
        (Action::TopLeft, Rect::new(-1920, 0, -960, 540)),
        (Action::TopRight, Rect::new(-960, 0, 0, 540)),
        (Action::BottomLeft, Rect::new(-1920, 540, -960, 1080)),
        (Action::BottomRight, Rect::new(-960, 540, 0, 1080)),
        (Action::FirstThird, Rect::new(-1920, 0, -1280, 1080)),
        (Action::CenterThird, Rect::new(-1280, 0, -640, 1080)),
        (Action::LastThird, Rect::new(-640, 0, 0, 1080)),
        (Action::FirstTwoThirds, Rect::new(-1920, 0, -640, 1080)),
        (Action::CenterTwoThirds, Rect::new(-1600, 0, -320, 1080)),
        (Action::LastTwoThirds, Rect::new(-1280, 0, 0, 1080)),
        (Action::CenterHalf, Rect::new(-1440, 0, -480, 1080)),
        (Action::Center, Rect::new(-1260, 240, -660, 840)),
        (Action::AlmostMaximize, Rect::new(-1824, 54, -96, 1026)),
        (Action::MaximizeHeight, Rect::new(-1500, 0, -900, 1080)),
        (Action::Grow, Rect::new(-1560, 40, -840, 760)),
        (Action::Shrink, Rect::new(-1440, 160, -960, 640)),
        (Action::MoveLeft, Rect::new(-1596, 100, -996, 700)),
        (Action::MoveRight, Rect::new(-1404, 100, -804, 700)),
        (Action::MoveUp, Rect::new(-1500, 46, -900, 646)),
        (Action::MoveDown, Rect::new(-1500, 154, -900, 754)),
    ];

    for (action, expected) in cases {
        assert_eq!(LayoutEngine::target(action, current, work), Some(expected), "{action:?}");
    }
}

#[test]
fn system_actions_do_not_claim_a_geometric_target() {
    let work = Rect::new(0, 0, 1920, 1080);
    let current = Rect::new(100, 100, 900, 700);

    for action in [
        Action::Maximize,
        Action::Restore,
        Action::NextMonitor,
        Action::PreviousMonitor,
        Action::Undo,
        Action::ShowShortcuts,
    ] {
        assert_eq!(LayoutEngine::target(action, current, work), None);
    }
}

#[test]
fn invalid_rectangles_are_rejected() {
    let valid = Rect::new(0, 0, 100, 100);
    let empty = Rect::new(0, 0, 0, 100);
    let inverted = Rect::new(100, 100, 0, 0);

    assert_eq!(LayoutEngine::target(Action::LeftHalf, empty, valid), None);
    assert_eq!(LayoutEngine::target(Action::LeftHalf, valid, inverted), None);
}

#[test]
fn rect_reports_dimensions_validity_and_intersection() {
    let first = Rect::new(-100, -50, 300, 250);
    let second = Rect::new(100, 100, 500, 400);

    assert_eq!(first.width(), 400);
    assert_eq!(first.height(), 300);
    assert!(first.is_valid());
    assert_eq!(first.intersection_area(second), 30_000);
    assert_eq!(first.intersection_area(Rect::new(301, 251, 500, 500)), 0);
}

#[test]
fn halves_cover_odd_negative_work_area_without_overlap() {
    let work = Rect::new(-1921, 0, 0, 1081);
    let current = Rect::new(-1000, 100, -500, 600);
    let left = LayoutEngine::target(Action::LeftHalf, current, work).unwrap();
    let right = LayoutEngine::target(Action::RightHalf, current, work).unwrap();

    assert_eq!(left.left, work.left);
    assert_eq!(left.right, right.left);
    assert_eq!(right.right, work.right);
    assert_eq!(left.width() + right.width(), work.width());
}

#[test]
fn thirds_distribute_all_pixels() {
    let work = Rect::new(0, 0, 100, 80);
    let current = Rect::new(0, 0, 10, 10);
    let first = LayoutEngine::target(Action::FirstThird, current, work).unwrap();
    let center = LayoutEngine::target(Action::CenterThird, current, work).unwrap();
    let last = LayoutEngine::target(Action::LastThird, current, work).unwrap();

    assert_eq!(first.right, center.left);
    assert_eq!(center.right, last.left);
    assert_eq!(first.width() + center.width() + last.width(), 100);
}

#[test]
fn incremental_moves_stay_inside_work_area() {
    let work = Rect::new(-100, -50, 900, 750);
    let current = Rect::new(-100, -50, 300, 250);

    assert_eq!(LayoutEngine::target(Action::MoveLeft, current, work), Some(current));
    assert_eq!(LayoutEngine::target(Action::MoveDown, current, work), Some(Rect::new(-100, -10, 300, 290)));
}

#[test]
fn every_geometric_target_is_valid_and_contained() {
    let mut seed: u32 = 17;
    let mut next = |bound: u32| {
        seed = seed.wrapping_mul(1_103_515_245).wrapping_add(12_345);
        (seed >> 8) % bound
    };
    for _ in 0..300 {
        let left = next(20_000) as i32 - 10_000;
        let top = next(20_000) as i32 - 10_000;
        let width = 1 + next(4_999) as i32;
        let height = 1 + next(4_999) as i32;
        let work = Rect::new(left, top, left + width, top + height);
        let x = next(width as u32) as i32;
        let y = next(height as u32) as i32;
        let current_width = 1 + next((width - x) as u32) as i32;
        let current_height = 1 + next((height - y) as u32) as i32;
        let current = Rect::new(left + x, top + y, left + x + current_width, top + y + current_height);

        for action in Action::ALL {
            if let Some(target) = LayoutEngine::target(action, current, work) {
                assert!(target.is_valid());
                assert!(target.left >= work.left);
                assert!(target.top >= work.top);
                assert!(target.right <= work.right);
                assert!(target.bottom <= work.bottom);
            }
        }
    }
}

#[test]
fn the_gap_keeps_its_size_on_a_scaled_display() {
    assert_eq!(LayoutEngine::gap_pixels(12, 96), 12);
    assert_eq!(LayoutEngine::gap_pixels(12, 120), 15);
    assert_eq!(LayoutEngine::gap_pixels(12, 144), 18);
    assert_eq!(LayoutEngine::gap_pixels(12, 192), 24);
    assert_eq!(LayoutEngine::gap_pixels(0, 192), 0);
}

#[test]
fn an_unreported_dpi_leaves_the_gap_at_its_configured_size() {
    assert_eq!(LayoutEngine::gap_pixels(12, 0), 12);
}

#[test]
fn the_gap_is_capped_before_it_is_scaled() {
    assert_eq!(LayoutEngine::gap_pixels(u16::MAX, 192), LayoutEngine::gap_pixels(MAX_GAP, 192));
}

#[test]
fn a_normalized_area_maps_onto_the_work_area() {
    let work = Rect::new(-1920, 0, 0, 1080);
    let left_half = NormalizedRect::new(0, 0, 5_000, 10_000);
    assert_eq!(LayoutEngine::area_target(left_half, work), Some(Rect::new(-1920, 0, -960, 1080)));
    assert_eq!(LayoutEngine::area_target(NormalizedRect::new(5_000, 0, 5_000, 10_000), work), None);
    assert_eq!(LayoutEngine::area_target(NormalizedRect::new(0, 0, 10_001, 10_000), work), None);
}

#[test]
fn insetting_keeps_a_rectangle_the_gap_would_consume() {
    let rect = Rect::new(0, 0, 100, 50);
    assert_eq!(rect.inset(10), Rect::new(10, 10, 90, 40));
    assert_eq!(rect.inset(25), rect);
    assert_eq!(rect.inset(0), rect);
    assert!(rect.contains(Point::new(0, 0)));
    assert!(!rect.contains(Point::new(100, 0)));
}
