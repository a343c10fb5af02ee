//! What a drag near the edge of a work area snaps to, and the adapters that let
//! a host replace the default decisions.

use vstd::prelude::*;

use crate::action::Action;
use crate::config::HotkeyBinding;
use crate::geometry::{clamp_int, lemma_target_is_contained, min_int, target_of, LayoutEngine, Point, Rect, NORMALIZED_SCALE};

verus! {

/// `a / b` rounded toward zero, as integer division does.
pub open spec fn div_toward_zero(a: int, b: int) -> int {
    if a >= 0 {
        a / b
    } else {
        -((-a) / b)
    }
}

/// Everything an adapter needs to resolve a drag into a target rectangle.
#[derive(Clone, Copy, Debug, PartialEq, Eq)]
pub struct SnapRequest<'a> {
    /// Cursor position, in virtual desktop coordinates.
    pub cursor: Point,
    /// Work area of the monitor under the cursor.
    pub work_area: Rect,
    /// Gap to leave around the snapped window, in pixels.
    pub gap: i32,
    /// Edge sensitivity, in `NORMALIZED_SCALE` units.
    pub snap_threshold: u16,
    /// Executable file name of the dragged window, lowercased.
    pub application: Option<&'a str>,
}

/// Which edges of the work area the cursor is close to.
#[derive(Clone, Copy, Debug, PartialEq, Eq, Structural)]
pub struct Edges {
    pub left: bool,
    pub right: bool,
    pub top: bool,
    pub bottom: bool,
}

/// The edge sensitivity in pixels: the threshold's share of the shorter side
/// of the work area, kept between 8 and 96 pixels.
pub open spec fn threshold_of(snap_threshold: u16, work: Rect) -> int {
    clamp_int(div_toward_zero(snap_threshold * min_int(work.w(), work.h()), NORMALIZED_SCALE as int), 8, 96)
}

pub open spec fn edges_of(cursor: Point, work: Rect, threshold: int) -> Edges {
    Edges {
        left: cursor.x - work.left <= threshold,
        right: work.right - cursor.x <= threshold,
        top: cursor.y - work.top <= threshold,
        bottom: work.bottom - cursor.y <= threshold,
    }
}

/// The action a drag near these edges stands for: a corner before a single
/// edge, the top edge maximizing.
pub open spec fn snap_action(edges: Edges) -> Option<Action> {
    if edges.left && edges.top {
        Some(Action::TopLeft)
    } else if edges.right && edges.top {
        Some(Action::TopRight)
    } else if edges.left && edges.bottom {
        Some(Action::BottomLeft)
    } else if edges.right && edges.bottom {
        Some(Action::BottomRight)
    } else if edges.left {
        Some(Action::LeftHalf)
    } else if edges.right {
        Some(Action::RightHalf)
    } else if edges.top {
        Some(Action::Maximize)
    } else if edges.bottom {
        Some(Action::BottomHalf)
    } else {
        None
    }
}

impl<'a> SnapRequest<'a> {
    pub open spec fn threshold(self) -> int {
        threshold_of(self.snap_threshold, self.work_area)
    }

    pub open spec fn edge_set(self) -> Edges {
        edges_of(self.cursor, self.work_area, self.threshold())
    }

    pub open spec fn is_near_edge(self) -> bool {
        let edges = self.edge_set();
        edges.left || edges.right || edges.top || edges.bottom
    }

    /// The rectangle the default resolver snaps this drag to.
    pub open spec fn edge_target(self) -> Option<Rect> {
        match snap_action(self.edge_set()) {
            None => None,
            Some(Action::Maximize) => Some(self.work_area),
            Some(action) => match target_of(action, self.work_area, self.work_area) {
                Some(target) => Some(target.inset_by(self.gap as int)),
                None => None,
            },
        }
    }

    /// Edge sensitivity resolved against the current work area, in pixels.
    pub fn threshold_pixels(&self) -> (pixels: i32)
        ensures
            pixels == self.threshold(),
            8 <= pixels <= 96,
    {
        let width = self.work_area.right as i64 - self.work_area.left as i64;
        let height = self.work_area.bottom as i64 - self.work_area.top as i64;
        let shorter = if width <= height { width } else { height };
        assert(-0x1_0000_0000 <= shorter <= 0x1_0000_0000);
        assert(-0x1_0000_0000 * 0x10000 <= self.snap_threshold as int * shorter <= 0x1_0000_0000 * 0x10000)
            by (nonlinear_arith)
            requires
                -0x1_0000_0000 <= shorter <= 0x1_0000_0000,
                0 <= self.snap_threshold < 0x10000,
        ;
        let product = self.snap_threshold as i64 * shorter;
        let share = if product >= 0 {
            product / (NORMALIZED_SCALE as i64)
        } else {
            -((-product) / (NORMALIZED_SCALE as i64))
        };
        if share < 8 {
            8
        } else if share > 96 {
            96
        } else {
            share as i32
        }
    }

    /// Whether the cursor is close enough to an edge for snapping to engage.
    pub fn near_edge(&self) -> (near: bool)
        ensures
            near == self.is_near_edge(),
    {
        let edges = self.edges();
        edges.left || edges.right || edges.top || edges.bottom
    }

    /// The edges the cursor is close to.
    pub fn edges(&self) -> (edges: Edges)
        ensures
            edges == self.edge_set(),
    {
        let threshold = self.threshold_pixels() as i64;
        Edges {
            left: self.cursor.x as i64 - self.work_area.left as i64 <= threshold,
            right: self.work_area.right as i64 - self.cursor.x as i64 <= threshold,
            top: self.cursor.y as i64 - self.work_area.top as i64 <= threshold,
            bottom: self.work_area.bottom as i64 - self.cursor.y as i64 <= threshold,
        }
    }
}

/// Insetting a rectangle keeps it a rectangle inside the one it came from.
pub proof fn lemma_inset_stays_inside(rect: Rect, gap: int)
    requires
        rect.valid(),
    ensures
        rect.inset_by(gap).valid(),
        rect.inset_by(gap).within(rect),
{
}

/// A gap comes off all four sides alike: a rectangle wider and taller than
/// twice a positive gap loses the gap on every side, and any other rectangle,
/// or any gap that is not positive, leaves it as it is.
pub proof fn lemma_gap_comes_off_every_side(rect: Rect, gap: int)
    ensures
        gap > 0 && rect.right - rect.left > 2 * gap && rect.bottom - rect.top > 2 * gap ==> {
            &&& rect.inset_by(gap).left == rect.left + gap
            &&& rect.inset_by(gap).top == rect.top + gap
            &&& rect.inset_by(gap).right == rect.right - gap
            &&& rect.inset_by(gap).bottom == rect.bottom - gap
        },
        !(gap > 0 && rect.right - rect.left > 2 * gap && rect.bottom - rect.top > 2 * gap) ==> rect.inset_by(gap) == rect,
{
}

/// Wherever a drag snaps, the window stays inside the work area it was dragged
/// over, gap or no gap.
pub proof fn lemma_snap_stays_in_work_area(request: SnapRequest)
    requires
        request.work_area.valid(),
    ensures
        request.edge_target() matches Some(target) ==> target.valid() && target.within(request.work_area),
{
    let work = request.work_area;
    match snap_action(request.edge_set()) {
        None => {},
        Some(Action::Maximize) => {},
        Some(action) => {
            lemma_target_is_contained(action, work, work);
            match target_of(action, work, work) {
                Some(target) => {
                    lemma_inset_stays_inside(target, request.gap as int);
                },
                None => {},
            }
        },
    }
}

/// A drag that snaps to anything but the whole work area takes the layout
/// target of its half or corner on that work area with the request's gap left
/// all round, the same for the halves as for the corners; a drag near the top
/// edge alone fills the work area.
pub proof fn lemma_snap_keeps_the_gap(request: SnapRequest)
    ensures
        match snap_action(request.edge_set()) {
            None => request.edge_target() is None,
            Some(action) => if action == Action::Maximize {
                request.edge_target() == Some(request.work_area)
            } else {
                match target_of(action, request.work_area, request.work_area) {
                    Some(target) => request.edge_target() == Some(target.inset_by(request.gap as int)),
                    None => request.edge_target() is None,
                }
            },
        },
{
}

/// Which half or corner a drag snaps to: a corner where two edges meet, the
/// left or right half along a side edge, the bottom half along the bottom
/// edge, and the whole work area along the top edge.
pub proof fn lemma_snap_action_follows_the_edges(edges: Edges)
    ensures
        edges.left && edges.top ==> snap_action(edges) == Some(Action::TopLeft),
        !edges.left && edges.right && edges.top ==> snap_action(edges) == Some(Action::TopRight),
        edges.left && !edges.top && edges.bottom ==> snap_action(edges) == Some(Action::BottomLeft),
        !edges.left && edges.right && !edges.top && edges.bottom ==> snap_action(edges) == Some(Action::BottomRight),
        edges.left && !edges.top && !edges.bottom ==> snap_action(edges) == Some(Action::LeftHalf),
        !edges.left && edges.right && !edges.top && !edges.bottom ==> snap_action(edges) == Some(Action::RightHalf),
        !edges.left && !edges.right && edges.top ==> snap_action(edges) == Some(Action::Maximize),
        !edges.left && !edges.right && !edges.top && edges.bottom ==> snap_action(edges) == Some(Action::BottomHalf),
        !edges.left && !edges.right && !edges.top && !edges.bottom ==> snap_action(edges) is None,
{
}

/// A cursor farther than the largest threshold from every edge never snaps:
/// the middle of a work area is left alone.
pub proof fn lemma_far_from_every_edge_never_snaps(request: SnapRequest)
    requires
        request.cursor.x - request.work_area.left > 96,
        request.work_area.right - request.cursor.x > 96,
        request.cursor.y - request.work_area.top > 96,
        request.work_area.bottom - request.cursor.y > 96,
    ensures
        !request.is_near_edge(),
        request.edge_target() is None,
{
}

/// Turns a drag into the rectangle the window should occupy.
pub trait SnapResolver: Send {
    fn snap_target(&mut self, request: SnapRequest<'_>) -> Option<Rect>;
}

/// Snaps to the standard halves, corners and maximized area.
#[derive(Clone, Copy, Debug, Default)]
pub struct EdgeSnapResolver;

impl SnapResolver for EdgeSnapResolver {
    fn snap_target(&mut self, request: SnapRequest<'_>) -> (target: Option<Rect>)
        ensures
            target == request.edge_target(),
    {
        let work = request.work_area;
        let edges = request.edges();
        let action = if edges.left && edges.top {
            Action::TopLeft
        } else if edges.right && edges.top {
            Action::TopRight
        } else if edges.left && edges.bottom {
            Action::BottomLeft
        } else if edges.right && edges.bottom {
            Action::BottomRight
        } else if edges.left {
            Action::LeftHalf
        } else if edges.right {
            Action::RightHalf
        } else if edges.top {
            Action::Maximize
        } else if edges.bottom {
            Action::BottomHalf
        } else {
            return None;
        };
        if action == Action::Maximize {
            return Some(work);
        }
        match LayoutEngine::target(action, work, work) {
            Some(target) => Some(target.inset(request.gap)),
            None => None,
        }
    }
}

/// Chooses the action a pressed shortcut triggers.
pub trait ShortcutResolver: Send {
    fn resolve(&mut self, binding: &HotkeyBinding) -> Action;
}

/// Every shortcut always triggers the action it is bound to.
#[derive(Clone, Copy, Debug, Default)]
pub struct SingleActionShortcuts;

impl ShortcutResolver for SingleActionShortcuts {
    fn resolve(&mut self, binding: &HotkeyBinding) -> (action: Action)
        ensures
            action == binding.action,
    {
        binding.action
    }
}

/// Decides whether a window may be moved, given its executable file name.
pub trait WindowFilter: Send {
    fn allows(&self, application: Option<&str>) -> bool;
}

/// Every eligible window may be managed.
#[derive(Clone, Copy, Debug, Default)]
pub struct AllWindows;

impl WindowFilter for AllWindows {
    fn allows(&self, application: Option<&str>) -> (allowed: bool)
        ensures
            allowed,
    {
        true
    }
}

/// The adapters a runtime instance uses.
pub struct RuntimeAdapters {
    pub snap: Box<dyn SnapResolver>,
    pub shortcuts: Box<dyn ShortcutResolver>,
    pub windows: Box<dyn WindowFilter>,
}

impl Default for RuntimeAdapters {
    fn default() -> Self {
        RuntimeAdapters {
            snap: Box::new(EdgeSnapResolver),
            shortcuts: Box::new(SingleActionShortcuts),
            windows: Box::new(AllWindows),
        }
    }
}

} // verus!
