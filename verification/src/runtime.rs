//! The decisions of the window runtime: which monitor a window is on, where an
//! action puts it, which work area a drag is over, and how the global
//! shortcuts are kept registered. The code that asks Windows and acts on the
//! answers calls into these.

use vstd::prelude::*;
use vstd::string::StringExecFns;

use crate::action::Action;
use crate::config::{AppConfig, ConfigError};
use crate::geometry::{fits_i32, target_of, LayoutEngine, NormalizedRect, Point, Rect, MAX_GAP};

verus! {

/// What the settings window and the tray ask the runtime to do.
#[derive(Clone, Debug)]
pub enum RuntimeCommand {
    Apply(Action),
    /// Places the active window on the given fraction of its work area.
    ApplyArea(NormalizedRect),
    UpdateConfig(AppConfig),
    SetHotkeysSuspended(bool),
    Stop,
}

/// What the runtime reports back.
#[derive(Clone, Debug)]
pub enum RuntimeEvent {
    Ready,
    Applied { action: Action, rect: Option<Rect> },
    AreaApplied { rect: Rect },
    /// The monitors changed and this many windows were put back where they were.
    ArrangementRestored { windows: usize },
    /// The user asked to see every shortcut at once.
    ShortcutsRequested,
    /// Undo was asked for a window that has nothing left to take back.
    NothingToUndo,
    HotkeyConflict { action: Action },
    NoActiveWindow,
    AccessDenied,
    Failed(String),
}

/// Why a runtime could not start.
#[derive(Clone, Debug, PartialEq, Eq)]
pub enum RuntimeError {
    /// The configuration breaks a rule.
    Config(ConfigError),
    /// The runtime thread could not be started, with the system's message.
    Thread(String),
}

/// The gap the runtime leaves around placed windows: the configured one, at
/// most `MAX_GAP` pixels.
pub fn runtime_gap(gap: u16) -> (pixels: i32)
    ensures
        pixels == if gap <= MAX_GAP { gap as int } else { MAX_GAP as int },
{
    if gap <= MAX_GAP {
        gap as i32
    } else {
        MAX_GAP as i32
    }
}

/// Where a window's frame lies, and the part of it that is visible: Windows
/// draws an invisible resize border around most windows.
#[derive(Clone, Copy, Debug, PartialEq, Eq, Structural)]
pub struct WindowGeometry {
    pub outer: Rect,
    pub visible: Rect,
}

impl WindowGeometry {
    pub open spec fn outer_of(self, target: Rect) -> (int, int, int, int) {
        (
            target.left - (self.visible.left - self.outer.left),
            target.top - (self.visible.top - self.outer.top),
            target.right + (self.outer.right - self.visible.right),
            target.bottom + (self.outer.bottom - self.visible.bottom),
        )
    }

    /// The frame to set so that the visible part lands on `target`.
    pub fn outer_for_visible(self, target: Rect) -> (outer: Rect)
        requires
            fits_i32(self.visible.left - self.outer.left),
            fits_i32(self.visible.top - self.outer.top),
            fits_i32(self.outer.right - self.visible.right),
            fits_i32(self.outer.bottom - self.visible.bottom),
            fits_i32(self.outer_of(target).0),
            fits_i32(self.outer_of(target).1),
            fits_i32(self.outer_of(target).2),
            fits_i32(self.outer_of(target).3),
        ensures
            outer.left == self.outer_of(target).0,
            outer.top == self.outer_of(target).1,
            outer.right == self.outer_of(target).2,
            outer.bottom == self.outer_of(target).3,
    {
        let left_inset = self.visible.left - self.outer.left;
        let top_inset = self.visible.top - self.outer.top;
        let right_inset = self.outer.right - self.visible.right;
        let bottom_inset = self.outer.bottom - self.visible.bottom;
        Rect::new(
            target.left - left_inset,
            target.top - top_inset,
            target.right + right_inset,
            target.bottom + bottom_inset,
        )
    }
}

/// Whether an action keeps the rectangle it computes as it is: the ones that
/// size or move a window relative to itself, and the moves between monitors.
/// The others leave the configured gap around the window.
pub open spec fn is_gapless(action: Action) -> bool {
    match action {
        Action::Center | Action::AlmostMaximize | Action::MaximizeHeight | Action::Grow | Action::Shrink
        | Action::MoveLeft | Action::MoveRight | Action::MoveUp | Action::MoveDown | Action::NextMonitor
        | Action::PreviousMonitor => true,
        _ => false,
    }
}

pub fn keeps_without_gap(action: Action) -> (gapless: bool)
    ensures
        gapless == is_gapless(action),
{
    match action {
        Action::Center | Action::AlmostMaximize | Action::MaximizeHeight | Action::Grow | Action::Shrink
        | Action::MoveLeft | Action::MoveRight | Action::MoveUp | Action::MoveDown | Action::NextMonitor
        | Action::PreviousMonitor => true,
        _ => false,
    }
}

/// The monitor the next or the previous monitor action moves to, cycling.
pub open spec fn cycled(action: Action, index: int, count: int) -> int {
    if action == Action::NextMonitor {
        (index + 1) % count
    } else {
        (index + count - 1) % count
    }
}

pub fn cycle_monitor(action: Action, index: usize, count: usize) -> (target: usize)
    requires
        index < count,
    ensures
        target == cycled(action, index as int, count as int),
        target < count,
{
    if action == Action::NextMonitor {
        (index + 1) % count
    } else if index == 0 {
        assert((index + count - 1) % (count as int) == count - 1) by (nonlinear_arith)
            requires
                index == 0,
                count > 0,
        ;
        count - 1
    } else {
        assert((index + count - 1) % (count as int) == index - 1) by (nonlinear_arith)
            requires
                0 < index < count,
        ;
        index - 1
    }
}

/// Where an action sends the active window.
#[derive(Clone, Copy, Debug, PartialEq, Eq, Structural)]
pub enum Placement {
    /// Onto this rectangle.
    At(Rect),
    /// From one work area onto the same place of another, scaled to its size.
    Across { from: Rect, to: Rect },
    /// Nowhere: the action has no geometric target for this window.
    Invalid,
}

/// Where `action` sends a window that shows `visible` on monitor `monitor` of
/// `works`, with `gap` pixels left around it where the action leaves a gap.
pub open spec fn placement_of(action: Action, visible: Rect, works: Seq<Rect>, monitor: int, gap: int) -> Placement {
    if (action == Action::NextMonitor || action == Action::PreviousMonitor) && works.len() > 1 {
        Placement::Across { from: works[monitor], to: works[cycled(action, monitor, works.len() as int)] }
    } else if action == Action::NextMonitor || action == Action::PreviousMonitor {
        Placement::At(visible)
    } else {
        match target_of(action, visible, works[monitor]) {
            None => Placement::Invalid,
            Some(target) => Placement::At(if is_gapless(action) { target } else { target.inset_by(gap) }),
        }
    }
}

pub fn plan_placement(action: Action, visible: Rect, works: &[Rect], monitor: usize, gap: i32) -> (placement:
    Placement)
    requires
        monitor < works@.len(),
    ensures
        placement == placement_of(action, visible, works@, monitor as int, gap as int),
{
    let monitors = works.len();
    if (action == Action::NextMonitor || action == Action::PreviousMonitor) && monitors > 1 {
        let target = cycle_monitor(action, monitor, monitors);
        return Placement::Across { from: works[monitor], to: works[target] };
    }
    if action == Action::NextMonitor || action == Action::PreviousMonitor {
        return Placement::At(visible);
    }
    match LayoutEngine::target(action, visible, works[monitor]) {
        None => Placement::Invalid,
        Some(target) => if keeps_without_gap(action) {
            Placement::At(target)
        } else {
            Placement::At(target.inset(gap))
        },
    }
}

/// The layout actions leave the configured gap around the window: every action
/// but centring, the sizes relative to the window itself (almost maximize,
/// maximize height, grow, shrink), the four moves and the moves between
/// monitors is placed on its layout target inset by the gap.
pub proof fn lemma_layout_actions_keep_the_gap(action: Action, visible: Rect, works: Seq<Rect>, monitor: int, gap: int)
    requires
        0 <= monitor < works.len(),
        action != Action::Center,
        action != Action::AlmostMaximize,
        action != Action::MaximizeHeight,
        action != Action::Grow,
        action != Action::Shrink,
        action != Action::MoveLeft,
        action != Action::MoveRight,
        action != Action::MoveUp,
        action != Action::MoveDown,
        action != Action::NextMonitor,
        action != Action::PreviousMonitor,
    ensures
        match target_of(action, visible, works[monitor]) {
            Some(target) => placement_of(action, visible, works, monitor, gap) == Placement::At(target.inset_by(gap)),
            None => placement_of(action, visible, works, monitor, gap) == Placement::Invalid,
        },
{
}

/// Centring, the sizes relative to the window itself and the four moves place
/// the window exactly on their layout target, with no gap taken off.
pub proof fn lemma_relative_actions_ignore_the_gap(action: Action, visible: Rect, works: Seq<Rect>, monitor: int, gap: int)
    requires
        0 <= monitor < works.len(),
        action == Action::Center || action == Action::AlmostMaximize || action == Action::MaximizeHeight
            || action == Action::Grow || action == Action::Shrink || action == Action::MoveLeft
            || action == Action::MoveRight || action == Action::MoveUp || action == Action::MoveDown,
    ensures
        match target_of(action, visible, works[monitor]) {
            Some(target) => placement_of(action, visible, works, monitor, gap) == Placement::At(target),
            None => placement_of(action, visible, works, monitor, gap) == Placement::Invalid,
        },
{
}

/// The part of `window` that `work` covers, as a count of pixels.
pub open spec fn overlap(window: Rect, work: Rect) -> int {
    window.overlap_w(work) * window.overlap_h(work)
}

/// The edges of the overlap of two rectangles fit in `i32`.
pub open spec fn overlap_fits(a: Rect, b: Rect) -> bool {
    &&& fits_i32(crate::geometry::min_int(a.right as int, b.right as int) - crate::geometry::max_int(a.left as int, b.left as int))
    &&& fits_i32(crate::geometry::min_int(a.bottom as int, b.bottom as int) - crate::geometry::max_int(a.top as int, b.top as int))
}

/// Among the first `n` work areas, the last one that covers the most of `window`.
pub open spec fn most_covering(window: Rect, works: Seq<Rect>, n: nat) -> int
    decreases n,
{
    if n <= 1 {
        0
    } else {
        let best = most_covering(window, works, (n - 1) as nat);
        if overlap(window, works[n - 1]) >= overlap(window, works[best]) {
            n - 1
        } else {
            best
        }
    }
}

/// The monitor a window is on: the one whose work area covers the most of it,
/// the last of them on a tie; `None` when no work area covers any of it.
pub open spec fn monitor_of(window: Rect, works: Seq<Rect>) -> Option<int> {
    if works.len() == 0 {
        None
    } else if overlap(window, works[most_covering(window, works, works.len())]) > 0 {
        Some(most_covering(window, works, works.len()))
    } else {
        None
    }
}

proof fn lemma_most_covering_bounds(window: Rect, works: Seq<Rect>, n: nat)
    requires
        1 <= n,
    ensures
        0 <= most_covering(window, works, n) < n,
        forall|k: int| 0 <= k < n ==> overlap(window, #[trigger] works[k]) <= overlap(window, works[most_covering(window, works, n)]),
    decreases n,
{
    if n > 1 {
        lemma_most_covering_bounds(window, works, (n - 1) as nat);
    }
}

/// The number of pixels of `window` that `work` covers: the width of the
/// span both cover across times the height of the span both cover down, each
/// counted as nothing when they miss each other.
pub open spec fn covered_pixels(window: Rect, work: Rect) -> int {
    let across = crate::geometry::min_int(window.right as int, work.right as int)
        - crate::geometry::max_int(window.left as int, work.left as int);
    let down = crate::geometry::min_int(window.bottom as int, work.bottom as int)
        - crate::geometry::max_int(window.top as int, work.top as int);
    (if across > 0 { across } else { 0 }) * (if down > 0 { down } else { 0 })
}

/// Among the first `n` work areas, none after the one `most_covering` picks
/// covers as much of the window.
proof fn lemma_most_covering_is_last(window: Rect, works: Seq<Rect>, n: nat)
    requires
        1 <= n,
    ensures
        forall|k: int| most_covering(window, works, n) < k < n ==> overlap(window, #[trigger] works[k]) < overlap(
            window,
            works[most_covering(window, works, n)],
        ),
    decreases n,
{
    lemma_most_covering_bounds(window, works, n);
    if n > 1 {
        lemma_most_covering_is_last(window, works, (n - 1) as nat);
        lemma_most_covering_bounds(window, works, (n - 1) as nat);
    }
}

/// A window is on the monitor whose work area covers the most of it, the last
/// of them on a tie, and on none when no work area covers any of it.
pub proof fn lemma_window_is_on_the_most_covering_monitor(window: Rect, works: Seq<Rect>)
    ensures
        monitor_of(window, works) matches Some(i) ==> {
            &&& 0 <= i < works.len()
            &&& covered_pixels(window, works[i]) > 0
            &&& forall|j: int| 0 <= j < works.len() ==> #[trigger] covered_pixels(window, works[j])
                <= covered_pixels(window, works[i])
            &&& forall|j: int| i < j < works.len() ==> #[trigger] covered_pixels(window, works[j])
                < covered_pixels(window, works[i])
        },
        monitor_of(window, works) is None ==> forall|j: int| 0 <= j < works.len() ==> #[trigger] covered_pixels(window, works[j]) == 0,
{
    assert forall|k: int| 0 <= k < works.len() implies #[trigger] overlap(window, works[k]) == covered_pixels(window, works[k])
    by {
        let w = works[k];
        let across = crate::geometry::min_int(window.right as int, w.right as int)
            - crate::geometry::max_int(window.left as int, w.left as int);
        let down = crate::geometry::min_int(window.bottom as int, w.bottom as int)
            - crate::geometry::max_int(window.top as int, w.top as int);
        assert(window.overlap_w(w) == (if across > 0 { across } else { 0 }));
        assert(window.overlap_h(w) == (if down > 0 { down } else { 0 }));
    }
    assert forall|k: int| 0 <= k < works.len() implies #[trigger] covered_pixels(window, works[k]) >= 0 by {
        let w = works[k];
        let across = crate::geometry::min_int(window.right as int, w.right as int)
            - crate::geometry::max_int(window.left as int, w.left as int);
        let down = crate::geometry::min_int(window.bottom as int, w.bottom as int)
            - crate::geometry::max_int(window.top as int, w.top as int);
        assert((if across > 0 { across } else { 0 }) * (if down > 0 { down } else { 0 }) >= 0) by (nonlinear_arith);
    }
    if works.len() > 0 {
        lemma_most_covering_bounds(window, works, works.len());
        lemma_most_covering_is_last(window, works, works.len());
    }
}

/// Moving to the next monitor and then to the previous one, or the other way
/// round, comes back to the monitor started from; either move lands on one of
/// the monitors, and on another one when there are several.
pub proof fn lemma_monitor_moves_undo_each_other(index: int, count: int)
    requires
        0 <= index < count,
    ensures
        0 <= cycled(Action::NextMonitor, index, count) < count,
        0 <= cycled(Action::PreviousMonitor, index, count) < count,
        count > 1 ==> cycled(Action::NextMonitor, index, count) != index,
        count > 1 ==> cycled(Action::PreviousMonitor, index, count) != index,
        cycled(Action::PreviousMonitor, cycled(Action::NextMonitor, index, count), count) == index,
        cycled(Action::NextMonitor, cycled(Action::PreviousMonitor, index, count), count) == index,
{
    lemma_mod_once(index + 1, count);
    lemma_mod_once(index + count - 1, count);
    let next = cycled(Action::NextMonitor, index, count);
    let previous = cycled(Action::PreviousMonitor, index, count);
    lemma_mod_once(next + count - 1, count);
    lemma_mod_once(previous + 1, count);
}

/// A number below twice the divisor leaves the divisor once at most.
proof fn lemma_mod_once(x: int, m: int)
    requires
        0 <= x < 2 * m,
    ensures
        x % m == if x < m { x } else { x - m },
{
    if x < m {
        vstd::arithmetic::div_mod::lemma_small_mod(x as nat, m as nat);
    } else {
        vstd::arithmetic::div_mod::lemma_mod_add_multiples_vanish(x - m, m);
        vstd::arithmetic::div_mod::lemma_small_mod((x - m) as nat, m as nat);
    }
}

/// Picks the monitor a window is on, by the area of the window each work area
/// covers. `None` leaves the choice to the system's nearest monitor.
pub fn select_monitor(window: Rect, works: &[Rect]) -> (monitor: Option<usize>)
    requires
        forall|k: int| 0 <= k < works@.len() ==> overlap_fits(window, #[trigger] works@[k]),
    ensures
        match (monitor, monitor_of(window, works@)) {
            (Some(i), Some(j)) => i == j,
            (None, None) => true,
            _ => false,
        },
        monitor matches Some(i) ==> i < works@.len(),
{
    if works.len() == 0 {
        return None;
    }
    let mut best: usize = 0;
    let mut best_area = window.intersection_area(works[0]);
    let mut i: usize = 1;
    while i < works.len()
        invariant
            1 <= i <= works@.len(),
            forall|k: int| 0 <= k < works@.len() ==> overlap_fits(window, #[trigger] works@[k]),
            best as int == most_covering(window, works@, i as nat),
            best < i,
            best_area == overlap(window, works@[best as int]),
        decreases works@.len() - i,
    {
        let area = window.intersection_area(works[i]);
        if area >= best_area {
            best = i;
            best_area = area;
        }
        i = i + 1;
    }
    if best_area > 0 {
        Some(best)
    } else {
        None
    }
}

/// The distance from `point` to the centre of `work`, counted along the axes.
/// The centre rounds toward the left and top edges, as halving a width does.
pub open spec fn distance_to_centre(point: Point, work: Rect) -> int {
    let cx = work.left + crate::snap::div_toward_zero(work.w(), 2);
    let cy = work.top + crate::snap::div_toward_zero(work.h(), 2);
    let dx = point.x - cx;
    let dy = point.y - cy;
    (if dx >= 0 { dx } else { -dx }) + (if dy >= 0 { dy } else { -dy })
}

/// Among the first `n` work areas, the first one whose centre is nearest to `point`.
pub open spec fn nearest(point: Point, works: Seq<Rect>, n: nat) -> int
    decreases n,
{
    if n <= 1 {
        0
    } else {
        let best = nearest(point, works, (n - 1) as nat);
        if distance_to_centre(point, works[n - 1]) < distance_to_centre(point, works[best]) {
            n - 1
        } else {
            best
        }
    }
}

/// The first of the first `n` work areas that holds `point`.
pub open spec fn first_holding(point: Point, works: Seq<Rect>, n: nat) -> Option<int>
    decreases n,
{
    if n == 0 {
        None
    } else {
        match first_holding(point, works, (n - 1) as nat) {
            Some(i) => Some(i),
            None => if works[n - 1].has_point(point) {
                Some(n - 1)
            } else {
                None
            },
        }
    }
}

/// The work area a drag is over: the first that holds the cursor, else the
/// first whose centre is nearest to it; `None` when there is no monitor.
pub open spec fn work_area_for(point: Point, works: Seq<Rect>) -> Option<Rect> {
    match first_holding(point, works, works.len()) {
        Some(i) => Some(works[i]),
        None => if works.len() == 0 {
            None
        } else {
            Some(works[nearest(point, works, works.len())])
        },
    }
}

proof fn lemma_first_holding_stays(point: Point, works: Seq<Rect>, n: nat, m: nat)
    requires
        n <= m,
        first_holding(point, works, n) is Some,
    ensures
        first_holding(point, works, m) == first_holding(point, works, n),
    decreases m - n,
{
    if n < m {
        lemma_first_holding_stays(point, works, n, (m - 1) as nat);
    }
}

proof fn lemma_first_holding_bound(point: Point, works: Seq<Rect>, n: nat)
    ensures
        first_holding(point, works, n) matches Some(i) ==> 0 <= i < n,
    decreases n,
{
    if n > 0 {
        lemma_first_holding_bound(point, works, (n - 1) as nat);
    }
}

proof fn lemma_nearest_bound(point: Point, works: Seq<Rect>, n: nat)
    requires
        1 <= n,
    ensures
        0 <= nearest(point, works, n) < n,
    decreases n,
{
    if n > 1 {
        lemma_nearest_bound(point, works, (n - 1) as nat);
    }
}

fn centre_distance(point: Point, work: Rect) -> (distance: i64)
    ensures
        distance == distance_to_centre(point, work),
{
    let width = work.right as i64 - work.left as i64;
    let height = work.bottom as i64 - work.top as i64;
    let half_width = if width >= 0 { width / 2 } else { -((-width) / 2) };
    let half_height = if height >= 0 { height / 2 } else { -((-height) / 2) };
    let dx = point.x as i64 - (work.left as i64 + half_width);
    let dy = point.y as i64 - (work.top as i64 + half_height);
    let ax = if dx >= 0 { dx } else { -dx };
    let ay = if dy >= 0 { dy } else { -dy };
    ax + ay
}

/// Finds the work area a drag is over.
pub fn work_area_at(point: Point, works: &[Rect]) -> (work: Option<Rect>)
    ensures
        work == work_area_for(point, works@),
{
    let mut i: usize = 0;
    while i < works.len()
        invariant
            i <= works@.len(),
            first_holding(point, works@, i as nat) is None,
        decreases works@.len() - i,
    {
        if works[i].contains(point) {
            proof {
                lemma_first_holding_stays(point, works@, (i + 1) as nat, works@.len());
            }
            return Some(works[i]);
        }
        i = i + 1;
    }
    if works.len() == 0 {
        return None;
    }
    let mut best: usize = 0;
    let mut best_distance = centre_distance(point, works[0]);
    let mut j: usize = 1;
    while j < works.len()
        invariant
            1 <= j <= works@.len(),
            best as int == nearest(point, works@, j as nat),
            best < j,
            best_distance == distance_to_centre(point, works@[best as int]),
        decreases works@.len() - j,
    {
        let distance = centre_distance(point, works[j]);
        if distance < best_distance {
            best = j;
            best_distance = distance;
        }
        j = j + 1;
    }
    Some(works[best])
}

/// How far `point` is from the middle of `work`: the horizontal and the
/// vertical distance to its centre, added. The centre lies half the width
/// right of the left edge and half the height below the top edge, each half
/// rounded toward zero.
pub open spec fn manhattan_to_middle(point: Point, work: Rect) -> int {
    let half_width = crate::snap::div_toward_zero(work.right - work.left, 2);
    let half_height = crate::snap::div_toward_zero(work.bottom - work.top, 2);
    crate::geometry::max_int(point.x - (work.left + half_width), (work.left + half_width) - point.x)
        + crate::geometry::max_int(point.y - (work.top + half_height), (work.top + half_height) - point.y)
}

/// Among the first `n` work areas, the one `nearest` picks is no farther from
/// `point` than any of them, and strictly nearer than each one before it.
proof fn lemma_nearest_is_closest(point: Point, works: Seq<Rect>, n: nat)
    requires
        1 <= n <= works.len(),
    ensures
        0 <= nearest(point, works, n) < n,
        forall|j: int| 0 <= j < n ==> manhattan_to_middle(point, works[nearest(point, works, n)])
            <= #[trigger] manhattan_to_middle(point, works[j]),
        forall|j: int| 0 <= j < nearest(point, works, n) ==> manhattan_to_middle(point, works[nearest(point, works, n)])
            < #[trigger] manhattan_to_middle(point, works[j]),
    decreases n,
{
    assert forall|k: int| 0 <= k < works.len() implies #[trigger] distance_to_centre(point, works[k])
        == manhattan_to_middle(point, works[k]) by {}
    if n > 1 {
        lemma_nearest_is_closest(point, works, (n - 1) as nat);
    }
}

/// A drag over no work area goes to the one whose centre is nearest, counting
/// both the horizontal and the vertical distance, and to the first of them on a
/// tie; a drag over a work area goes to the first that holds the cursor.
pub proof fn lemma_drag_goes_to_the_nearest_work_area(point: Point, works: Seq<Rect>)
    ensures
        (exists|i: int| 0 <= i < works.len() && #[trigger] works[i].has_point(point)) ==> exists|i: int|
            0 <= i < works.len() && works[i].has_point(point) && work_area_for(point, works) == Some(works[i])
                && forall|j: int| 0 <= j < i ==> !(#[trigger] works[j].has_point(point)),
        works.len() > 0 && (forall|i: int| 0 <= i < works.len() ==> !(#[trigger] works[i].has_point(point)))
            ==> exists|k: int| {
                &&& 0 <= k < works.len()
                &&& work_area_for(point, works) == Some(works[k])
                &&& forall|j: int| 0 <= j < works.len() ==> manhattan_to_middle(point, works[k])
                    <= #[trigger] manhattan_to_middle(point, works[j])
                &&& forall|j: int| 0 <= j < k ==> manhattan_to_middle(point, works[k])
                    < #[trigger] manhattan_to_middle(point, works[j])
            },
        works.len() == 0 ==> work_area_for(point, works) is None,
{
    lemma_first_holding_exact(point, works, works.len());
    if works.len() > 0 {
        lemma_nearest_is_closest(point, works, works.len());
    }
}

/// `first_holding` gives the first of the first `n` work areas that holds the
/// point, and none when none of them does.
proof fn lemma_first_holding_exact(point: Point, works: Seq<Rect>, n: nat)
    requires
        n <= works.len(),
    ensures
        first_holding(point, works, n) matches Some(i) ==> 0 <= i < n && works[i].has_point(point)
            && forall|j: int| 0 <= j < i ==> !(#[trigger] works[j].has_point(point)),
        first_holding(point, works, n) is None ==> forall|j: int| 0 <= j < n ==> !(#[trigger] works[j].has_point(point)),
    decreases n,
{
    if n > 0 {
        lemma_first_holding_exact(point, works, (n - 1) as nat);
    }
}

/// `WS_EX_TOOLWINDOW`: a window that belongs in no taskbar and is not managed.
pub const WS_EX_TOOLWINDOW: u32 = 0x0000_0080;

/// `WS_EX_NOACTIVATE`: a window that never becomes the active one.
pub const WS_EX_NOACTIVATE: u32 = 0x0800_0000;

/// Whether a window may be placed: it is visible, a top-level window, neither a
/// tool window nor one that cannot be activated, and not cloaked (when the
/// system reports a cloak state at all).
pub open spec fn eligible(visible: bool, top_level: bool, extended_style: u32, cloaked: Option<u32>) -> bool {
    &&& visible
    &&& top_level
    &&& extended_style & (WS_EX_TOOLWINDOW | WS_EX_NOACTIVATE) == 0
    &&& match cloaked {
        Some(state) => state == 0,
        None => true,
    }
}

pub fn is_eligible_window(visible: bool, top_level: bool, extended_style: u32, cloaked: Option<u32>) -> (allowed: bool)
    ensures
        allowed == eligible(visible, top_level, extended_style, cloaked),
{
    if !visible || !top_level {
        return false;
    }
    if extended_style & (WS_EX_TOOLWINDOW | WS_EX_NOACTIVATE) != 0 {
        return false;
    }
    match cloaked {
        Some(state) => state == 0,
        None => true,
    }
}

/// A window's geometry from its frame and the bounds the compositor reports
/// for its visible part: the frame must be a rectangle, and visible bounds
/// that are not one are replaced by the frame.
pub open spec fn geometry_of(outer: Rect, extended: Option<Rect>) -> Option<WindowGeometry> {
    if !outer.valid() {
        None
    } else {
        Some(
            WindowGeometry {
                outer,
                visible: match extended {
                    Some(bounds) => if bounds.valid() {
                        bounds
                    } else {
                        outer
                    },
                    None => outer,
                },
            },
        )
    }
}

pub fn window_geometry_from(outer: Rect, extended: Option<Rect>) -> (geometry: Option<WindowGeometry>)
    ensures
        geometry == geometry_of(outer, extended),
{
    if !outer.is_valid() {
        return None;
    }
    let visible = match extended {
        Some(bounds) => if bounds.is_valid() {
            bounds
        } else {
            outer
        },
        None => outer,
    };
    Some(WindowGeometry { outer, visible })
}

/// A drag of a window that may end in a snap.
#[derive(Clone, Debug, PartialEq, Eq)]
pub struct DragSession {
    pub window: usize,
    pub target: Option<Rect>,
    pub application: Option<String>,
}

/// Follows drags from their start to their end: which window is dragged, and
/// where it would snap if released now.
#[derive(Clone, Debug)]
pub struct DragTracker {
    session: Option<DragSession>,
}

impl DragTracker {
    pub closed spec fn current(&self) -> Option<DragSession> {
        self.session
    }

    pub fn new() -> (tracker: Self)
        ensures
            tracker.current() is None,
    {
        DragTracker { session: None }
    }

    /// A drag starts: an eligible window begins a session with no target yet,
    /// replacing any other; a drag of another window is not followed.
    pub fn start(&mut self, window: usize, eligible: bool, application: Option<String>) -> (started: bool)
        ensures
            started == eligible,
            eligible ==> final(self).current() == Some(DragSession { window, target: None, application }),
            !eligible ==> final(self).current() == old(self).current(),
    {
        if eligible {
            self.session = Some(DragSession { window, target: None, application });
        }
        eligible
    }

    /// Whether a move of `window` (of the window itself, object 0) belongs to
    /// the drag being followed; its snap target has then to be worked out anew.
    pub fn follows(&self, window: usize, object_id: i32) -> (following: bool)
        ensures
            following == (object_id == 0 && (self.current() matches Some(session) && session.window == window)),
    {
        object_id == 0 && match &self.session {
            Some(session) => session.window == window,
            None => false,
        }
    }

    /// The application of the window being dragged.
    pub fn application(&self) -> (application: Option<&str>)
        ensures
            match self.current() {
                Some(session) => match session.application {
                    Some(name) => application matches Some(a) && a@ == name@,
                    None => application is None,
                },
                None => application is None,
            },
    {
        match &self.session {
            Some(session) => match &session.application {
                Some(name) => Some(name.as_str()),
                None => None,
            },
            None => None,
        }
    }

    /// Records where the drag would snap now.
    pub fn set_target(&mut self, target: Option<Rect>)
        ensures
            match old(self).current() {
                Some(session) => final(self).current() == Some(DragSession { target, ..session }),
                None => final(self).current() is None,
            },
    {
        match self.session.take() {
            Some(session) => {
                self.session = Some(DragSession { target, ..session });
            },
            None => {},
        }
    }

    /// A drag of `window` ends: the session is over, and the window snaps to
    /// the last target when it is the one that was followed and there is one.
    pub fn finish(&mut self, window: usize) -> (snap: Option<Rect>)
        ensures
            final(self).current() is None,
            snap == match old(self).current() {
                Some(session) => if session.window == window {
                    session.target
                } else {
                    None
                },
                None => None,
            },
    {
        match self.session.take() {
            Some(session) => if session.window == window {
                session.target
            } else {
                None
            },
            None => None,
        }
    }
}

/// `a` comes no later than `b` in the order monitors are listed in: by the left
/// edge of their work area, then by its top edge.
pub open spec fn listed_before(a: Rect, b: Rect) -> bool {
    a.left < b.left || (a.left == b.left && a.top <= b.top)
}

/// `order` lists each of the `n` monitors once.
pub open spec fn lists_each_once(order: Seq<usize>, n: nat) -> bool {
    &&& order.len() == n
    &&& forall|i: int| 0 <= i < order.len() ==> #[trigger] order[i] < n
    &&& forall|i: int, j: int| 0 <= i < j < order.len() ==> #[trigger] order[i] != #[trigger] order[j]
}

/// `order` lists the work areas by their left edge, then their top edge, and
/// keeps the system's order between work areas that start at the same corner.
pub open spec fn sorted_stably(works: Seq<Rect>, order: Seq<usize>) -> bool {
    &&& forall|i: int, j: int|
        0 <= i < j < order.len() ==> listed_before(works[#[trigger] order[i] as int], works[#[trigger] order[j] as int])
    &&& forall|i: int, j: int|
        0 <= i < j < order.len() && works[#[trigger] order[i] as int].left == works[#[trigger] order[j] as int].left
            && works[order[i] as int].top == works[order[j] as int].top ==> order[i] < order[j]
}

/// The order monitors are listed and cycled in, as the indices of `works`.
pub fn monitor_order(works: &[Rect]) -> (order: Vec<usize>)
    ensures
        lists_each_once(order@, works@.len()),
        sorted_stably(works@, order@),
{
    let mut order: Vec<usize> = Vec::new();
    let mut k: usize = 0;
    while k < works.len()
        invariant
            k <= works@.len(),
            lists_each_once(order@, k as nat),
            sorted_stably(works@, order@),
        decreases works@.len() - k,
    {
        let key = works[k];
        let mut j: usize = 0;
        while j < order.len()
            invariant
                j <= order@.len(),
                k < works@.len(),
                key == works@[k as int],
                lists_each_once(order@, k as nat),
                forall|i: int| 0 <= i < j ==> listed_before(works@[#[trigger] order@[i] as int], key),
            ensures
                j <= order@.len(),
                forall|i: int| 0 <= i < j ==> listed_before(works@[#[trigger] order@[i] as int], key),
                j < order@.len() ==> !listed_before(works@[order@[j as int] as int], key),
            decreases order@.len() - j,
        {
            let other = works[order[j]];
            if !(other.left < key.left || (other.left == key.left && other.top <= key.top)) {
                break;
            }
            j = j + 1;
        }
        let ghost before = order@;
        proof {
            if j < before.len() {
                assert(!listed_before(works@[before[j as int] as int], key));
            }
        }
        order.insert(j, k);
        proof {
            let after = order@;
            assert(after == before.insert(j as int, k));
            assert forall|i: int| 0 <= i < after.len() implies #[trigger] after[i] < k + 1 by {
                if i < j {
                    assert(after[i] == before[i]);
                } else if i > j {
                    assert(after[i] == before[i - 1]);
                }
            }
            assert forall|a: int, b: int| 0 <= a < b < after.len() implies #[trigger] after[a] != #[trigger] after[b] by {
                if a < j && b < j {
                    assert(after[a] == before[a] && after[b] == before[b]);
                } else if a < j && b > j {
                    assert(after[a] == before[a] && after[b] == before[b - 1]);
                } else if a > j {
                    assert(after[a] == before[a - 1] && after[b] == before[b - 1]);
                } else if a == j {
                    assert(after[b] == before[b - 1]);
                } else {
                    assert(after[a] == before[a]);
                }
            }
            assert forall|a: int, b: int| 0 <= a < b < after.len() implies listed_before(
                works@[#[trigger] after[a] as int],
                works@[#[trigger] after[b] as int],
            ) by {
                if a < j && b < j {
                    assert(after[a] == before[a] && after[b] == before[b]);
                } else if a < j && b == j {
                    assert(after[a] == before[a]);
                } else if a < j && b > j {
                    assert(after[a] == before[a] && after[b] == before[b - 1]);
                } else if a == j {
                    assert(after[b] == before[b - 1]);
                    assert(listed_before(works@[before[j as int] as int], works@[before[b - 1] as int]) || b - 1 == j);
                } else {
                    assert(after[a] == before[a - 1] && after[b] == before[b - 1]);
                }
            }
            assert forall|a: int, b: int|
                0 <= a < b < after.len() && works@[#[trigger] after[a] as int].left == works@[#[trigger] after[
                    b
                ] as int].left && works@[after[a] as int].top == works@[after[b] as int].top implies after[a]
                < after[b] by {
                if a < j && b < j {
                    assert(after[a] == before[a] && after[b] == before[b]);
                } else if a < j && b > j {
                    assert(after[a] == before[a] && after[b] == before[b - 1]);
                } else if a > j {
                    assert(after[a] == before[a - 1] && after[b] == before[b - 1]);
                } else if a == j {
                    assert(after[b] == before[b - 1]);
                    assert(listed_before(works@[before[j as int] as int], works@[before[b - 1] as int]) || b - 1 == j);
                } else {
                    assert(after[a] == before[a]);
                }
            }
        }
        k = k + 1;
    }
    order
}

/// The system error code for a refused access, as an elevated window refuses
/// a non-elevated process.
pub const ERROR_ACCESS_DENIED: i32 = 5;

/// Why an action could not be applied to the active window.
#[derive(Clone, Debug, PartialEq, Eq)]
pub enum ApplyFailure {
    NoActiveWindow,
    NoMonitor,
    InvalidGeometry,
    InvalidArea,
    /// A system call failed, with its error code and message.
    System { code: i32, message: String },
}

pub open spec fn failure_text(failure: ApplyFailure) -> Seq<char> {
    match failure {
        ApplyFailure::NoActiveWindow => "there is no active window"@,
        ApplyFailure::NoMonitor => "the active window has no monitor"@,
        ApplyFailure::InvalidGeometry => "window geometry is invalid"@,
        ApplyFailure::InvalidArea => "the requested area is outside the normalized range"@,
        ApplyFailure::System { message, .. } => message@,
    }
}

impl ApplyFailure {
    pub fn message(&self) -> (message: String)
        ensures
            message@ == failure_text(*self),
    {
        match self {
            ApplyFailure::NoActiveWindow => "there is no active window".to_owned(),
            ApplyFailure::NoMonitor => "the active window has no monitor".to_owned(),
            ApplyFailure::InvalidGeometry => "window geometry is invalid".to_owned(),
            ApplyFailure::InvalidArea => "the requested area is outside the normalized range".to_owned(),
            ApplyFailure::System { message, .. } => message.as_str().to_owned(),
        }
    }
}

/// What a failure is reported as: no active window, a refused access, or a
/// failure with its message.
fn report_failure(failure: ApplyFailure) -> (event: RuntimeEvent)
    ensures
        match failure {
            ApplyFailure::NoActiveWindow => event == RuntimeEvent::NoActiveWindow,
            ApplyFailure::System { code, .. } => if code == ERROR_ACCESS_DENIED {
                event == RuntimeEvent::AccessDenied
            } else {
                event matches RuntimeEvent::Failed(message) && message@ == failure_text(failure)
            },
            _ => event matches RuntimeEvent::Failed(message) && message@ == failure_text(failure),
        },
{
    match failure {
        ApplyFailure::NoActiveWindow => RuntimeEvent::NoActiveWindow,
        ApplyFailure::System { code, message } => if code == ERROR_ACCESS_DENIED {
            RuntimeEvent::AccessDenied
        } else {
            RuntimeEvent::Failed(message)
        },
        other => RuntimeEvent::Failed(other.message()),
    }
}

/// What applying an action is reported as.
pub fn action_report(action: Action, outcome: Result<Option<Rect>, ApplyFailure>) -> (event: RuntimeEvent)
    ensures
        match outcome {
            Ok(rect) => event == RuntimeEvent::Applied { action, rect },
            Err(ApplyFailure::NoActiveWindow) => event == RuntimeEvent::NoActiveWindow,
            Err(ApplyFailure::System { code, message }) => if code == ERROR_ACCESS_DENIED {
                event == RuntimeEvent::AccessDenied
            } else {
                event matches RuntimeEvent::Failed(m) && m@ == message@
            },
            Err(failure) => event matches RuntimeEvent::Failed(m) && m@ == failure_text(failure),
        },
{
    match outcome {
        Ok(rect) => RuntimeEvent::Applied { action, rect },
        Err(failure) => report_failure(failure),
    }
}

/// What applying an area is reported as.
pub fn area_report(outcome: Result<Rect, ApplyFailure>) -> (event: RuntimeEvent)
    ensures
        match outcome {
            Ok(rect) => event == RuntimeEvent::AreaApplied { rect },
            Err(ApplyFailure::NoActiveWindow) => event == RuntimeEvent::NoActiveWindow,
            Err(ApplyFailure::System { code, message }) => if code == ERROR_ACCESS_DENIED {
                event == RuntimeEvent::AccessDenied
            } else {
                event matches RuntimeEvent::Failed(m) && m@ == message@
            },
            Err(failure) => event matches RuntimeEvent::Failed(m) && m@ == failure_text(failure),
        },
{
    match outcome {
        Ok(rect) => RuntimeEvent::AreaApplied { rect },
        Err(failure) => report_failure(failure),
    }
}

/// What a request to suspend or resume the global shortcuts asks for.
#[derive(Clone, Copy, Debug, PartialEq, Eq, Structural)]
pub enum SuspensionStep {
    Suspend,
    Resume,
    Keep,
}

/// Suspending while active suspends, resuming while suspended resumes, and a
/// request for the current state changes nothing.
pub fn suspension_step(requested: bool, suspended: bool) -> (step: SuspensionStep)
    ensures
        step == if requested && !suspended {
            SuspensionStep::Suspend
        } else if !requested && suspended {
            SuspensionStep::Resume
        } else {
            SuspensionStep::Keep
        },
{
    if requested && !suspended {
        SuspensionStep::Suspend
    } else if !requested && suspended {
        SuspensionStep::Resume
    } else {
        SuspensionStep::Keep
    }
}

} // verus!
