use vstd::prelude::*;

use crate::action::Action;

verus! {

/// The denominator of every normalized coordinate: `NORMALIZED_SCALE` is the
/// whole width or height of a work area.
pub const NORMALIZED_SCALE: u16 = 10_000;

/// The largest gap, in unscaled pixels, ever left around a placed window.
pub const MAX_GAP: u16 = 64;

/// The DPI at which one logical pixel is one physical pixel.
pub const USER_DEFAULT_SCREEN_DPI: u32 = 96;

pub open spec fn fits_i32(value: int) -> bool {
    i32::MIN <= value <= i32::MAX
}

pub open spec fn min_int(a: int, b: int) -> int {
    if a <= b {
        a
    } else {
        b
    }
}

pub open spec fn max_int(a: int, b: int) -> int {
    if a >= b {
        a
    } else {
        b
    }
}

/// `value` forced into `[low, high]`, as `Ord::clamp` does when `low <= high`.
pub open spec fn clamp_int(value: int, low: int, high: int) -> int {
    if value < low {
        low
    } else if value > high {
        high
    } else {
        value
    }
}

#[derive(Clone, Copy, Debug, Default, PartialEq, Eq, Structural)]
pub struct Point {
    pub x: i32,
    pub y: i32,
}

impl Point {
    pub fn new(x: i32, y: i32) -> (point: Self)
        ensures
            point.x == x,
            point.y == y,
    {
        Point { x, y }
    }
}

/// A rectangle expressed as a fraction of a work area, in `NORMALIZED_SCALE` units.
#[derive(Clone, Copy, Debug, PartialEq, Eq, Structural)]
pub struct NormalizedRect {
    pub left: u16,
    pub top: u16,
    pub right: u16,
    pub bottom: u16,
}

impl NormalizedRect {
    pub fn new(left: u16, top: u16, right: u16, bottom: u16) -> (rect: Self)
        ensures
            rect == (NormalizedRect { left, top, right, bottom }),
    {
        NormalizedRect { left, top, right, bottom }
    }

    /// A non-empty area that stays inside the work area.
    pub open spec fn valid(self) -> bool {
        &&& self.left < self.right
        &&& self.top < self.bottom
        &&& self.right <= NORMALIZED_SCALE
        &&& self.bottom <= NORMALIZED_SCALE
    }

    pub fn is_valid(self) -> (valid: bool)
        ensures
            valid == self.valid(),
    {
        self.left < self.right && self.top < self.bottom && self.right <= NORMALIZED_SCALE
            && self.bottom <= NORMALIZED_SCALE
    }
}

/// A rectangle in virtual desktop pixels; `right` and `bottom` are exclusive.
#[derive(Clone, Copy, Debug, Default, PartialEq, Eq, Structural)]
pub struct Rect {
    pub left: i32,
    pub top: i32,
    pub right: i32,
    pub bottom: i32,
}

/// The rectangle with these edges; the edges must fit in `i32` for it to mean them.
pub open spec fn rect_of(left: int, top: int, right: int, bottom: int) -> Rect {
    Rect { left: left as i32, top: top as i32, right: right as i32, bottom: bottom as i32 }
}

impl Rect {
    pub open spec fn w(self) -> int {
        self.right - self.left
    }

    pub open spec fn h(self) -> int {
        self.bottom - self.top
    }

    /// A rectangle with a positive width and height.
    pub open spec fn valid(self) -> bool {
        self.right > self.left && self.bottom > self.top
    }

    /// Every pixel of `self` lies in `outer`.
    pub open spec fn within(self, outer: Rect) -> bool {
        &&& outer.left <= self.left
        &&& outer.top <= self.top
        &&& self.right <= outer.right
        &&& self.bottom <= outer.bottom
    }

    pub open spec fn has_point(self, point: Point) -> bool {
        self.left <= point.x < self.right && self.top <= point.y < self.bottom
    }

    /// The width of the area both rectangles cover, zero when they miss each other.
    pub open spec fn overlap_w(self, other: Rect) -> int {
        max_int(min_int(self.right as int, other.right as int) - max_int(self.left as int, other.left as int), 0)
    }

    pub open spec fn overlap_h(self, other: Rect) -> int {
        max_int(min_int(self.bottom as int, other.bottom as int) - max_int(self.top as int, other.top as int), 0)
    }

    pub open spec fn inset_by(self, gap: int) -> Rect {
        if gap <= 0 || self.w() <= 2 * gap || self.h() <= 2 * gap {
            self
        } else {
            rect_of(self.left + gap, self.top + gap, self.right - gap, self.bottom - gap)
        }
    }

    pub fn new(left: i32, top: i32, right: i32, bottom: i32) -> (rect: Self)
        ensures
            rect == (Rect { left, top, right, bottom }),
    {
        Rect { left, top, right, bottom }
    }

    pub fn width(self) -> (width: i32)
        requires
            fits_i32(self.w()),
        ensures
            width == self.w(),
    {
        self.right - self.left
    }

    pub fn height(self) -> (height: i32)
        requires
            fits_i32(self.h()),
        ensures
            height == self.h(),
    {
        self.bottom - self.top
    }

    pub fn is_valid(self) -> (valid: bool)
        ensures
            valid == self.valid(),
    {
        self.right > self.left && self.bottom > self.top
    }

    /// The number of pixels both rectangles cover.
    pub fn intersection_area(self, other: Self) -> (area: i64)
        requires
            fits_i32(min_int(self.right as int, other.right as int) - max_int(self.left as int, other.left as int)),
            fits_i32(min_int(self.bottom as int, other.bottom as int) - max_int(self.top as int, other.top as int)),
        ensures
            area == self.overlap_w(other) * self.overlap_h(other),
            area >= 0,
    {
        let right = if self.right <= other.right { self.right } else { other.right };
        let left = if self.left >= other.left { self.left } else { other.left };
        let bottom = if self.bottom <= other.bottom { self.bottom } else { other.bottom };
        let top = if self.top >= other.top { self.top } else { other.top };
        let width_raw = right - left;
        let height_raw = bottom - top;
        let width: i32 = if width_raw >= 0 { width_raw } else { 0 };
        let height: i32 = if height_raw >= 0 { height_raw } else { 0 };
        assert(0 <= width as int * height as int <= i32::MAX as int * i32::MAX as int) by (nonlinear_arith)
            requires
                0 <= width <= i32::MAX,
                0 <= height <= i32::MAX,
        ;
        (width as i64) * (height as i64)
    }

    pub fn contains(self, point: Point) -> (inside: bool)
        ensures
            inside == self.has_point(point),
    {
        point.x >= self.left && point.x < self.right && point.y >= self.top && point.y < self.bottom
    }

    /// Shrinks the rectangle by `gap` on every side, keeping it unchanged when the
    /// gap would consume it.
    pub fn inset(self, gap: i32) -> (inset: Self)
        ensures
            inset == self.inset_by(gap as int),
            self.valid() ==> inset.valid() && inset.within(self),
    {
        let width = self.right as i64 - self.left as i64;
        let height = self.bottom as i64 - self.top as i64;
        if gap <= 0 || width <= 2 * (gap as i64) || height <= 2 * (gap as i64) {
            self
        } else {
            Rect::new(self.left + gap, self.top + gap, self.right - gap, self.bottom - gap)
        }
    }
}

/// The `index`-th of the `parts + 1` boundaries that cut `[start, end]` into
/// `parts` spans, rounding each boundary down.
pub open spec fn split_point(start: int, end: int, parts: int, index: int) -> int {
    start + (end - start) * index / parts
}

/// `[left, right) x [top, bottom)` moved into `bounds`, shrunk first to fit.
pub open spec fn clamp_into(left: int, top: int, right: int, bottom: int, bounds: Rect) -> Rect {
    let width = min_int(right - left, bounds.w());
    let height = min_int(bottom - top, bounds.h());
    let l = clamp_int(left, bounds.left as int, bounds.right - width);
    let t = clamp_int(top, bounds.top as int, bounds.bottom - height);
    rect_of(l, t, l + width, t + height)
}

/// `current` scaled by `numerator / denominator` around its centre, at least one
/// pixel and at most the work area in each direction, then moved into the work area.
pub open spec fn resized(current: Rect, work: Rect, numerator: int, denominator: int) -> Rect {
    let width = clamp_int(current.w() * numerator / denominator, 1, work.w());
    let height = clamp_int(current.h() * numerator / denominator, 1, work.h());
    let center_x = current.left + current.w() / 2;
    let center_y = current.top + current.h() / 2;
    let left = center_x - width / 2;
    let top = center_y - height / 2;
    clamp_into(left, top, left + width, top + height, work)
}

/// `current` shifted by `(dx, dy)`, then moved into the work area.
pub open spec fn shifted(current: Rect, work: Rect, dx: int, dy: int) -> Rect {
    clamp_into(current.left + dx, current.top + dy, current.right + dx, current.bottom + dy, work)
}

/// A band of `width` pixels centred in the work area, at full height.
pub open spec fn centered_band(work: Rect, width: int) -> Rect {
    let left = work.left + (work.w() - width) / 2;
    rect_of(left, work.top as int, left + width, work.bottom as int)
}

/// A `width` by `height` rectangle centred in the work area.
pub open spec fn centered_box(work: Rect, width: int, height: int) -> Rect {
    let left = work.left + (work.w() - width) / 2;
    let top = work.top + (work.h() - height) / 2;
    rect_of(left, top, left + width, top + height)
}

/// The actions that ask Windows or the runtime for something, not for a rectangle.
pub open spec fn is_system_action(action: Action) -> bool {
    match action {
        Action::Maximize | Action::Restore | Action::NextMonitor | Action::PreviousMonitor
        | Action::Undo | Action::ShowShortcuts => true,
        _ => false,
    }
}

/// The rectangle an action asks for, before it is checked for being empty.
pub open spec fn placement(action: Action, current: Rect, work: Rect) -> Rect {
    let x1 = split_point(work.left as int, work.right as int, 2, 1);
    let y1 = split_point(work.top as int, work.bottom as int, 2, 1);
    let t1 = split_point(work.left as int, work.right as int, 3, 1);
    let t2 = split_point(work.left as int, work.right as int, 3, 2);
    let (l, t, r, b) = (work.left as int, work.top as int, work.right as int, work.bottom as int);
    match action {
        Action::LeftHalf => rect_of(l, t, x1, b),
        Action::RightHalf => rect_of(x1, t, r, b),
        Action::TopHalf => rect_of(l, t, r, y1),
        Action::BottomHalf => rect_of(l, y1, r, b),
        Action::TopLeft => rect_of(l, t, x1, y1),
        Action::TopRight => rect_of(x1, t, r, y1),
        Action::BottomLeft => rect_of(l, y1, x1, b),
        Action::BottomRight => rect_of(x1, y1, r, b),
        Action::FirstThird => rect_of(l, t, t1, b),
        Action::CenterThird => rect_of(t1, t, t2, b),
        Action::LastThird => rect_of(t2, t, r, b),
        Action::FirstTwoThirds => rect_of(l, t, t2, b),
        Action::CenterTwoThirds => centered_band(work, work.w() * 2 / 3),
        Action::LastTwoThirds => rect_of(t1, t, r, b),
        Action::CenterHalf => centered_band(work, work.w() / 2),
        Action::Center => centered_box(work, min_int(current.w(), work.w()), min_int(current.h(), work.h())),
        Action::AlmostMaximize => centered_box(work, work.w() * 9 / 10, work.h() * 9 / 10),
        Action::MaximizeHeight => clamp_into(current.left as int, t, current.right as int, b, work),
        Action::Grow => resized(current, work, 120, 100),
        Action::Shrink => resized(current, work, 80, 100),
        Action::MoveLeft => shifted(current, work, -(work.w() / 20), 0),
        Action::MoveRight => shifted(current, work, work.w() / 20, 0),
        Action::MoveUp => shifted(current, work, 0, -(work.h() / 20)),
        Action::MoveDown => shifted(current, work, 0, work.h() / 20),
        _ => current,
    }
}

/// Where `action` puts a window that occupies `current` in `work`: nothing for
/// the system actions, for an empty rectangle, or when the result would be empty.
pub open spec fn target_of(action: Action, current: Rect, work: Rect) -> Option<Rect> {
    if !current.valid() || !work.valid() || is_system_action(action) {
        None
    } else if placement(action, current, work).valid() {
        Some(placement(action, current, work))
    } else {
        None
    }
}

/// The normalized coordinate `value` of a span starting at `start` and `span` wide.
pub open spec fn scale_point(start: int, span: int, value: int) -> int {
    start + span * value / (NORMALIZED_SCALE as int)
}

pub open spec fn area_of(bounds: NormalizedRect, work: Rect) -> Option<Rect> {
    if !bounds.valid() || !work.valid() {
        None
    } else {
        let r = rect_of(
            scale_point(work.left as int, work.w(), bounds.left as int),
            scale_point(work.top as int, work.h(), bounds.top as int),
            scale_point(work.left as int, work.w(), bounds.right as int),
            scale_point(work.top as int, work.h(), bounds.bottom as int),
        );
        if r.valid() {
            Some(r)
        } else {
            None
        }
    }
}

/// The gap in physical pixels on a display at `dpi`: capped at `MAX_GAP`, then
/// scaled from the default DPI, rounding down. A DPI of zero means Windows
/// reported none, and the gap keeps its configured size.
pub open spec fn gap_for(gap: u16, dpi: u32) -> int {
    let capped = min_int(gap as int, MAX_GAP as int);
    if dpi == 0 {
        capped
    } else {
        min_int(capped * dpi / (USER_DEFAULT_SCREEN_DPI as int), i32::MAX as int)
    }
}

proof fn lemma_split_point_bounds(start: int, end: int, parts: int, index: int)
    requires
        start <= end,
        0 < parts,
        0 <= index <= parts,
    ensures
        start <= split_point(start, end, parts, index) <= end,
        index == 0 ==> split_point(start, end, parts, index) == start,
        index == parts ==> split_point(start, end, parts, index) == end,
{
    let span = end - start;
    assert(0 <= span * index <= span * parts) by (nonlinear_arith)
        requires
            0 <= span,
            0 <= index <= parts,
    ;
    assert(span * parts / parts == span) by (nonlinear_arith)
        requires
            0 < parts,
    ;
    assert(0 <= span * index / parts <= span * parts / parts) by (nonlinear_arith)
        requires
            0 <= span * index <= span * parts,
            0 < parts,
    ;
    if index == 0 {
        assert(span * index == 0) by (nonlinear_arith)
            requires
                index == 0,
        ;
    }
    if index == parts {
        assert(span * index == span * parts);
    }
}

proof fn lemma_clamp_into(left: int, top: int, right: int, bottom: int, bounds: Rect)
    requires
        bounds.valid(),
        right > left,
        bottom > top,
    ensures
        clamp_into(left, top, right, bottom, bounds).valid(),
        clamp_into(left, top, right, bottom, bounds).within(bounds),
{
    let width = min_int(right - left, bounds.w());
    let height = min_int(bottom - top, bounds.h());
    let l = clamp_int(left, bounds.left as int, bounds.right - width);
    let t = clamp_int(top, bounds.top as int, bounds.bottom - height);
    assert(bounds.left <= l && l + width <= bounds.right);
    assert(bounds.top <= t && t + height <= bounds.bottom);
}

proof fn lemma_centered(work: Rect, width: int, height: int)
    requires
        work.valid(),
        0 <= width <= work.w(),
        0 <= height <= work.h(),
    ensures
        centered_box(work, width, height).within(work),
        width > 0 && height > 0 ==> centered_box(work, width, height).valid(),
        centered_band(work, width).within(work),
        width > 0 ==> centered_band(work, width).valid(),
{
}

/// Every rectangle an action places is non-empty and inside the work area.
pub proof fn lemma_target_is_contained(action: Action, current: Rect, work: Rect)
    ensures
        target_of(action, current, work) matches Some(target) ==> target.valid() && target.within(work),
{
    if current.valid() && work.valid() && !is_system_action(action) {
        let (l, t, r, b) = (work.left as int, work.top as int, work.right as int, work.bottom as int);
        lemma_split_point_bounds(l, r, 2, 1);
        lemma_split_point_bounds(t, b, 2, 1);
        lemma_split_point_bounds(l, r, 3, 1);
        lemma_split_point_bounds(l, r, 3, 2);
        assert(split_point(l, r, 3, 1) <= split_point(l, r, 3, 2)) by {
            let span = r - l;
            assert(span * 1 / 3 <= span * 2 / 3) by (nonlinear_arith)
                requires
                    span >= 0,
            ;
        }
        match action {
            Action::CenterTwoThirds => {
                assert(0 <= work.w() * 2 / 3 <= work.w());
                lemma_centered(work, work.w() * 2 / 3, 1);
            },
            Action::CenterHalf => {
                lemma_centered(work, work.w() / 2, 1);
            },
            Action::Center => {
                lemma_centered(work, min_int(current.w(), work.w()), min_int(current.h(), work.h()));
            },
            Action::AlmostMaximize => {
                assert(0 <= work.w() * 9 / 10 <= work.w());
                assert(0 <= work.h() * 9 / 10 <= work.h());
                lemma_centered(work, work.w() * 9 / 10, work.h() * 9 / 10);
            },
            Action::MaximizeHeight => {
                lemma_clamp_into(current.left as int, t, current.right as int, b, work);
            },
            Action::Grow | Action::Shrink => {
                let n: int = if action == Action::Grow { 120 } else { 80 };
                let width = clamp_int(current.w() * n / 100, 1, work.w());
                let height = clamp_int(current.h() * n / 100, 1, work.h());
                let left = current.left + current.w() / 2 - width / 2;
                let top = current.top + current.h() / 2 - height / 2;
                lemma_clamp_into(left, top, left + width, top + height, work);
            },
            Action::MoveLeft | Action::MoveRight | Action::MoveUp | Action::MoveDown => {
                let dx: int = match action {
                    Action::MoveLeft => -(work.w() / 20),
                    Action::MoveRight => work.w() / 20,
                    _ => 0,
                };
                let dy: int = match action {
                    Action::MoveUp => -(work.h() / 20),
                    Action::MoveDown => work.h() / 20,
                    _ => 0,
                };
                lemma_clamp_into(current.left + dx, current.top + dy, current.right + dx, current.bottom + dy, work);
            },
            _ => {},
        }
    }
}

/// The left and right halves share their inner edge and together span the work
/// area, whatever its width; both exist once the work area is two pixels wide.
pub proof fn lemma_halves_tile_the_work_area(current: Rect, work: Rect)
    requires
        current.valid(),
        work.valid(),
        work.w() >= 2,
    ensures
        target_of(Action::LeftHalf, current, work) matches Some(left) && target_of(
            Action::RightHalf,
            current,
            work,
        ) matches Some(right) && {
            &&& left.left == work.left
            &&& left.right == right.left
            &&& right.right == work.right
            &&& left.top == work.top && right.top == work.top
            &&& left.bottom == work.bottom && right.bottom == work.bottom
        },
{
    let (l, r) = (work.left as int, work.right as int);
    lemma_split_point_bounds(l, r, 2, 1);
    let span = r - l;
    assert(0 < span * 1 / 2 < span) by (nonlinear_arith)
        requires
            span >= 2,
    ;
}

/// The three thirds share their inner edges and together span the work area;
/// all three exist once the work area is three pixels wide.
pub proof fn lemma_thirds_tile_the_work_area(current: Rect, work: Rect)
    requires
        current.valid(),
        work.valid(),
        work.w() >= 3,
    ensures
        target_of(Action::FirstThird, current, work) matches Some(first) && target_of(
            Action::CenterThird,
            current,
            work,
        ) matches Some(center) && target_of(Action::LastThird, current, work) matches Some(last)
            && {
            &&& first.left == work.left
            &&& first.right == center.left
            &&& center.right == last.left
            &&& last.right == work.right
        },
{
    let (l, r) = (work.left as int, work.right as int);
    lemma_split_point_bounds(l, r, 3, 1);
    lemma_split_point_bounds(l, r, 3, 2);
    let span = r - l;
    assert(0 < span * 1 / 3 < span * 2 / 3 < span) by (nonlinear_arith)
        requires
            span >= 3,
    ;
}

/// An action that is not about a rectangle never claims one.
pub proof fn lemma_system_actions_have_no_target(action: Action, current: Rect, work: Rect)
    requires
        is_system_action(action),
    ensures
        target_of(action, current, work) is None,
{
}

/// The gap is capped before it is scaled: asking for more than `MAX_GAP` gives
/// what `MAX_GAP` gives, on every display.
pub proof fn lemma_gap_is_capped_before_scaling(gap: u16, dpi: u32)
    requires
        gap >= MAX_GAP,
    ensures
        gap_for(gap, dpi) == gap_for(MAX_GAP, dpi),
{
}

pub struct LayoutEngine;

impl LayoutEngine {
    /// Where `action` puts a window that occupies `current` in the work area `work`.
    pub fn target(action: Action, current: Rect, work: Rect) -> (target: Option<Rect>)
        ensures
            target == target_of(action, current, work),
            target matches Some(t) ==> t.valid() && t.within(work),
    {
        proof {
            lemma_target_is_contained(action, current, work);
        }
        if !current.is_valid() || !work.is_valid() {
            return None;
        }
        let (l, t, r, b) = (work.left as i64, work.top as i64, work.right as i64, work.bottom as i64);
        let work_width = r - l;
        let work_height = b - t;
        let current_width = current.right as i64 - current.left as i64;
        let current_height = current.bottom as i64 - current.top as i64;
        let ghost (gl, gt, gr, gb) = (work.left as int, work.top as int, work.right as int, work.bottom as int);
        proof {
            lemma_split_point_bounds(gl, gr, 2, 1);
            lemma_split_point_bounds(gt, gb, 2, 1);
            lemma_split_point_bounds(gl, gr, 3, 1);
            lemma_split_point_bounds(gl, gr, 3, 2);
        }
        let x1 = Self::boundary(work.left, work.right, 2, 1);
        let y1 = Self::boundary(work.top, work.bottom, 2, 1);
        let t1 = Self::boundary(work.left, work.right, 3, 1);
        let t2 = Self::boundary(work.left, work.right, 3, 2);
        let result = match action {
            Action::LeftHalf => Rect::new(work.left, work.top, x1, work.bottom),
            Action::RightHalf => Rect::new(x1, work.top, work.right, work.bottom),
            Action::TopHalf => Rect::new(work.left, work.top, work.right, y1),
            Action::BottomHalf => Rect::new(work.left, y1, work.right, work.bottom),
            Action::TopLeft => Rect::new(work.left, work.top, x1, y1),
            Action::TopRight => Rect::new(x1, work.top, work.right, y1),
            Action::BottomLeft => Rect::new(work.left, y1, x1, work.bottom),
            Action::BottomRight => Rect::new(x1, y1, work.right, work.bottom),
            Action::FirstThird => Rect::new(work.left, work.top, t1, work.bottom),
            Action::CenterThird => Rect::new(t1, work.top, t2, work.bottom),
            Action::LastThird => Rect::new(t2, work.top, work.right, work.bottom),
            Action::FirstTwoThirds => Rect::new(work.left, work.top, t2, work.bottom),
            Action::CenterTwoThirds => Self::band(work, work_width * 2 / 3),
            Action::LastTwoThirds => Rect::new(t1, work.top, work.right, work.bottom),
            Action::CenterHalf => Self::band(work, work_width / 2),
            Action::Center => {
                let width = if current_width <= work_width { current_width } else { work_width };
                let height = if current_height <= work_height { current_height } else { work_height };
                Self::centered(work, width, height)
            },
            Action::AlmostMaximize => Self::centered(work, work_width * 9 / 10, work_height * 9 / 10),
            Action::MaximizeHeight => Self::clamp_edges(current.left as i64, t, current.right as i64, b, work),
            Action::Grow => Self::resize_around_center(current, work, 120, 100),
            Action::Shrink => Self::resize_around_center(current, work, 80, 100),
            Action::MoveLeft => Self::translate(current, work, -(work_width / 20), 0),
            Action::MoveRight => Self::translate(current, work, work_width / 20, 0),
            Action::MoveUp => Self::translate(current, work, 0, -(work_height / 20)),
            Action::MoveDown => Self::translate(current, work, 0, work_height / 20),
            Action::Maximize | Action::Restore | Action::NextMonitor | Action::PreviousMonitor
            | Action::Undo | Action::ShowShortcuts => {
                return None;
            },
        };
        if result.is_valid() {
            Some(result)
        } else {
            None
        }
    }

    /// Maps a normalized area onto a work area, producing an absolute rectangle.
    pub fn area_target(bounds: NormalizedRect, work: Rect) -> (target: Option<Rect>)
        ensures
            target == area_of(bounds, work),
            target matches Some(t) ==> t.valid() && t.within(work),
    {
        if !bounds.is_valid() || !work.is_valid() {
            return None;
        }
        let width = work.right as i64 - work.left as i64;
        let height = work.bottom as i64 - work.top as i64;
        let left = Self::scale(work.left, width, bounds.left);
        let top = Self::scale(work.top, height, bounds.top);
        let right = Self::scale(work.left, width, bounds.right);
        let bottom = Self::scale(work.top, height, bounds.bottom);
        let target = Rect::new(left, top, right, bottom);
        if target.is_valid() {
            Some(target)
        } else {
            None
        }
    }

    /// The gap to leave around a window on a display at `dpi`, in physical pixels.
    pub fn gap_pixels(gap: u16, dpi: u32) -> (pixels: i32)
        ensures
            pixels == gap_for(gap, dpi),
            0 <= pixels,
    {
        let capped: u16 = if gap <= MAX_GAP { gap } else { MAX_GAP };
        if dpi == 0 {
            return capped as i32;
        }
        assert(capped as int * dpi as int <= 64 * u32::MAX as int) by (nonlinear_arith)
            requires
                capped <= 64,
        ;
        let scaled = capped as u64 * dpi as u64 / USER_DEFAULT_SCREEN_DPI as u64;
        if scaled <= i32::MAX as u64 {
            scaled as i32
        } else {
            i32::MAX
        }
    }

    /// `start + span * value / NORMALIZED_SCALE`, for a coordinate of a valid area.
    fn scale(start: i32, span: i64, value: u16) -> (point: i32)
        requires
            0 < span <= u32::MAX,
            start + span <= i32::MAX,
            value <= NORMALIZED_SCALE,
        ensures
            point == scale_point(start as int, span as int, value as int),
            start <= point <= start + span,
    {
        assert(0 <= span * value <= span * (NORMALIZED_SCALE as int)) by (nonlinear_arith)
            requires
                0 < span,
                0 <= value <= NORMALIZED_SCALE,
        ;
        assert(0 <= span * value / (NORMALIZED_SCALE as int) <= span) by (nonlinear_arith)
            requires
                0 <= span * value <= span * (NORMALIZED_SCALE as int),
        ;
        let offset = span * value as i64 / NORMALIZED_SCALE as i64;
        (start as i64 + offset) as i32
    }

    /// The `index`-th boundary of `[start, end]` cut into `parts` spans.
    fn boundary(start: i32, end: i32, parts: i64, index: i64) -> (point: i32)
        requires
            start <= end,
            0 < parts <= 3,
            0 <= index <= parts,
        ensures
            point == split_point(start as int, end as int, parts as int, index as int),
    {
        proof {
            lemma_split_point_bounds(start as int, end as int, parts as int, index as int);
        }
        let span = end as i64 - start as i64;
        assert(0 <= span * index <= span * 3) by (nonlinear_arith)
            requires
                0 <= span,
                0 <= index <= 3,
        ;
        (start as i64 + span * index / parts) as i32
    }

    fn band(work: Rect, width: i64) -> (band: Rect)
        requires
            work.valid(),
            0 <= width <= work.w(),
        ensures
            band == centered_band(work, width as int),
    {
        proof {
            lemma_centered(work, 0, 0);
        }
        let left = work.left as i64 + (work.right as i64 - work.left as i64 - width) / 2;
        Rect::new(left as i32, work.top, (left + width) as i32, work.bottom)
    }

    fn centered(work: Rect, width: i64, height: i64) -> (centered: Rect)
        requires
            work.valid(),
            0 <= width <= work.w(),
            0 <= height <= work.h(),
        ensures
            centered == centered_box(work, width as int, height as int),
    {
        proof {
            lemma_centered(work, width as int, height as int);
        }
        let left = work.left as i64 + (work.right as i64 - work.left as i64 - width) / 2;
        let top = work.top as i64 + (work.bottom as i64 - work.top as i64 - height) / 2;
        Rect::new(left as i32, top as i32, (left + width) as i32, (top + height) as i32)
    }

    /// Scales `current` by `numerator / denominator` around its centre, keeping
    /// it inside `work`.
    fn resize_around_center(current: Rect, work: Rect, numerator: i32, denominator: i32) -> (resized_rect: Rect)
        requires
            current.valid(),
            work.valid(),
            0 < numerator <= 1000,
            0 < denominator,
        ensures
            resized_rect == resized(current, work, numerator as int, denominator as int),
            resized_rect.valid() && resized_rect.within(work),
    {
        let current_width = current.right as i64 - current.left as i64;
        let current_height = current.bottom as i64 - current.top as i64;
        let work_width = work.right as i64 - work.left as i64;
        let work_height = work.bottom as i64 - work.top as i64;
        assert(0 <= current_width * numerator <= u32::MAX as int * 1000) by (nonlinear_arith)
            requires
                0 < current_width <= u32::MAX,
                0 < numerator <= 1000,
        ;
        assert(0 <= current_height * numerator <= u32::MAX as int * 1000) by (nonlinear_arith)
            requires
                0 < current_height <= u32::MAX,
                0 < numerator <= 1000,
        ;
        let scaled_width = current_width * numerator as i64 / denominator as i64;
        let scaled_height = current_height * numerator as i64 / denominator as i64;
        let width = if scaled_width < 1 { 1 } else if scaled_width > work_width { work_width } else { scaled_width };
        let height = if scaled_height < 1 { 1 } else if scaled_height > work_height { work_height } else { scaled_height };
        let center_x = current.left as i64 + current_width / 2;
        let center_y = current.top as i64 + current_height / 2;
        let left = center_x - width / 2;
        let top = center_y - height / 2;
        proof {
            lemma_clamp_into(left as int, top as int, left + width, top + height, work);
        }
        Self::clamp_edges(left, top, left + width, top + height, work)
    }

    /// Shifts `current` by `(horizontal, vertical)`, keeping it inside `work`.
    fn translate(current: Rect, work: Rect, horizontal: i64, vertical: i64) -> (moved: Rect)
        requires
            current.valid(),
            work.valid(),
            fits_i32(horizontal as int),
            fits_i32(vertical as int),
        ensures
            moved == shifted(current, work, horizontal as int, vertical as int),
            moved.valid() && moved.within(work),
    {
        proof {
            lemma_clamp_into(
                current.left + horizontal,
                current.top + vertical,
                current.right + horizontal,
                current.bottom + vertical,
                work,
            );
        }
        Self::clamp_edges(
            current.left as i64 + horizontal,
            current.top as i64 + vertical,
            current.right as i64 + horizontal,
            current.bottom as i64 + vertical,
            work,
        )
    }

    /// Moves `rect` into `bounds`, shrinking it first where it is larger.
    pub fn clamp(rect: Rect, bounds: Rect) -> (clamped: Rect)
        requires
            rect.valid(),
            bounds.valid(),
        ensures
            clamped == clamp_into(rect.left as int, rect.top as int, rect.right as int, rect.bottom as int, bounds),
            clamped.valid() && clamped.within(bounds),
    {
        proof {
            lemma_clamp_into(rect.left as int, rect.top as int, rect.right as int, rect.bottom as int, bounds);
        }
        Self::clamp_edges(rect.left as i64, rect.top as i64, rect.right as i64, rect.bottom as i64, bounds)
    }

    fn clamp_edges(left: i64, top: i64, right: i64, bottom: i64, bounds: Rect) -> (clamped: Rect)
        requires
            bounds.valid(),
            right > left,
            bottom > top,
            i32::MIN * 4 <= left <= i32::MAX * 4,
            i32::MIN * 4 <= top <= i32::MAX * 4,
            i32::MIN * 4 <= right <= i32::MAX * 4,
            i32::MIN * 4 <= bottom <= i32::MAX * 4,
        ensures
            clamped == clamp_into(left as int, top as int, right as int, bottom as int, bounds),
    {
        proof {
            lemma_clamp_into(left as int, top as int, right as int, bottom as int, bounds);
        }
        let bounds_width = bounds.right as i64 - bounds.left as i64;
        let bounds_height = bounds.bottom as i64 - bounds.top as i64;
        let width = if right - left <= bounds_width { right - left } else { bounds_width };
        let height = if bottom - top <= bounds_height { bottom - top } else { bounds_height };
        let high_x = bounds.right as i64 - width;
        let high_y = bounds.bottom as i64 - height;
        let l = if left < bounds.left as i64 { bounds.left as i64 } else if left > high_x { high_x } else { left };
        let t = if top < bounds.top as i64 { bounds.top as i64 } else if top > high_y { high_y } else { top };
        Rect::new(l as i32, t as i32, (l + width) as i32, (t + height) as i32)
    }
}

} // verus!
