//! Integer rectangles in logical coordinates.
//!
//! A rectangle is the set of the points that it covers: its left and top edges
//! belong to it, its right and bottom edges do not.

use vstd::prelude::*;

verus! {

/// A rectangle given by its top-left corner and its size.
#[derive(Clone, Copy, Debug, PartialEq, Eq, Structural)]
pub struct LogicalRect {
    pub x: i32,
    pub y: i32,
    pub width: i32,
    pub height: i32,
}

/// A point in logical coordinates.
#[derive(Clone, Copy, Debug, PartialEq, Eq, Structural)]
pub struct LogicalPoint {
    pub x: i32,
    pub y: i32,
}

/// How far an effect reaches beyond each edge of the rectangle it belongs to.
#[derive(Clone, Copy, Debug, PartialEq, Eq, Structural)]
pub struct EffectOutsets {
    pub left: i32,
    pub right: i32,
    pub top: i32,
    pub bottom: i32,
}

pub open spec fn fits_i32(value: int) -> bool {
    i32::MIN <= value <= i32::MAX
}

/// The value nearest to `value` that an `i32` can hold.
pub open spec fn saturate_i32(value: int) -> int {
    if value < i32::MIN {
        i32::MIN as int
    } else if value > i32::MAX {
        i32::MAX as int
    } else {
        value
    }
}

pub open spec fn spec_max(a: int, b: int) -> int {
    if a >= b {
        a
    } else {
        b
    }
}

pub open spec fn spec_min(a: int, b: int) -> int {
    if a <= b {
        a
    } else {
        b
    }
}

/// The rectangle with the given corner and size.
pub open spec fn rect_of(x: int, y: int, width: int, height: int) -> LogicalRect {
    LogicalRect { x: x as i32, y: y as i32, width: width as i32, height: height as i32 }
}

impl LogicalRect {
    pub open spec fn right(self) -> int {
        self.x + self.width
    }

    pub open spec fn bottom(self) -> int {
        self.y + self.height
    }

    /// Both far edges are representable.
    pub open spec fn fits(self) -> bool {
        fits_i32(self.right()) && fits_i32(self.bottom())
    }

    pub open spec fn is_solid(self) -> bool {
        self.width > 0 && self.height > 0
    }

    pub open spec fn covers(self, px: int, py: int) -> bool {
        self.x <= px < self.right() && self.y <= py < self.bottom()
    }

    /// Every edge lies between the corresponding edges of `outer`.
    pub open spec fn within(self, outer: LogicalRect) -> bool {
        &&& outer.x <= self.x
        &&& outer.y <= self.y
        &&& self.right() <= outer.right()
        &&& self.bottom() <= outer.bottom()
    }

    /// No point is covered by both.
    pub open spec fn disjoint_from(self, other: LogicalRect) -> bool {
        forall|px: int, py: int| !(#[trigger] self.covers(px, py) && other.covers(px, py))
    }

    pub fn new(x: i32, y: i32, width: i32, height: i32) -> (rect: LogicalRect)
        ensures
            rect == (LogicalRect { x, y, width, height }),
    {
        LogicalRect { x, y, width, height }
    }

    /// The rectangle moved by `dx` and `dy`.
    pub fn translated(self, dx: i32, dy: i32) -> (rect: LogicalRect)
        requires
            fits_i32(self.x + dx),
            fits_i32(self.y + dy),
        ensures
            rect == rect_of(self.x + dx, self.y + dy, self.width as int, self.height as int),
    {
        LogicalRect { x: self.x + dx, y: self.y + dy, width: self.width, height: self.height }
    }

    /// The same rectangle in coordinates that start at `origin`.
    pub open spec fn seen_from(self, origin: LogicalPoint) -> LogicalRect {
        rect_of(
            self.x - origin.x,
            self.y - origin.y,
            self.width as int,
            self.height as int,
        )
    }

    /// The corner of the rectangle in coordinates that start at `origin` is in the range of
    /// machine integers.
    pub open spec fn fits_from(self, origin: LogicalPoint) -> bool {
        fits_i32(self.x - origin.x) && fits_i32(self.y - origin.y)
    }

    pub fn relative_to(self, origin: LogicalPoint) -> (rect: LogicalRect)
        requires
            self.fits_from(origin),
        ensures
            rect == self.seen_from(origin),
    {
        LogicalRect {
            x: self.x - origin.x,
            y: self.y - origin.y,
            width: self.width,
            height: self.height,
        }
    }

    pub open spec fn corner(self) -> LogicalPoint {
        LogicalPoint { x: self.x, y: self.y }
    }

    pub fn location(self) -> (point: LogicalPoint)
        ensures
            point == self.corner(),
    {
        LogicalPoint { x: self.x, y: self.y }
    }
}

pub fn max_i32(a: i32, b: i32) -> (r: i32)
    ensures
        r == spec_max(a as int, b as int),
{
    if a >= b {
        a
    } else {
        b
    }
}

pub fn min_i32(a: i32, b: i32) -> (r: i32)
    ensures
        r == spec_min(a as int, b as int),
{
    if a <= b {
        a
    } else {
        b
    }
}

/// `value` held within the range of `i32`.
fn clamp_to_i32(value: i64) -> (r: i32)
    ensures
        r == saturate_i32(value as int),
{
    if value < i32::MIN as i64 {
        i32::MIN
    } else if value > i32::MAX as i64 {
        i32::MAX
    } else {
        value as i32
    }
}

pub fn saturating_add_i32(a: i32, b: i32) -> (r: i32)
    ensures
        r == saturate_i32(a + b),
{
    clamp_to_i32(a as i64 + b as i64)
}

pub fn saturating_sub_i32(a: i32, b: i32) -> (r: i32)
    ensures
        r == saturate_i32(a - b),
{
    clamp_to_i32(a as i64 - b as i64)
}

/// The points that both rectangles cover, as a rectangle; `None` when there are none.
pub open spec fn intersect_rects(a: LogicalRect, b: LogicalRect) -> Option<LogicalRect> {
    let left = spec_max(a.x as int, b.x as int);
    let top = spec_max(a.y as int, b.y as int);
    let right = spec_min(a.right(), b.right());
    let bottom = spec_min(a.bottom(), b.bottom());
    if left < right && top < bottom {
        Some(rect_of(left, top, right - left, bottom - top))
    } else {
        None
    }
}

/// The overlap of two rectangles.
pub fn intersect_logical_rects(a: LogicalRect, b: LogicalRect) -> (r: Option<LogicalRect>)
    requires
        a.fits(),
        b.fits(),
    ensures
        r == intersect_rects(a, b),
{
    let left: i32 = max_i32(a.x, b.x);
    let top: i32 = max_i32(a.y, b.y);
    let right: i32 = min_i32(a.x + a.width, b.x + b.width);
    let bottom: i32 = min_i32(a.y + a.height, b.y + b.height);
    if right <= left || bottom <= top {
        return None;
    }
    Some(LogicalRect::new(left, top, right - left, bottom - top))
}

/// Whether the two rectangles share at least one point.
pub fn logical_rects_intersect(lhs: LogicalRect, rhs: LogicalRect) -> (r: bool)
    requires
        lhs.fits(),
        rhs.fits(),
    ensures
        r == (intersect_rects(lhs, rhs) is Some),
{
    let left: i32 = max_i32(lhs.x, rhs.x);
    let top: i32 = max_i32(lhs.y, rhs.y);
    let right: i32 = min_i32(lhs.x + lhs.width, rhs.x + rhs.width);
    let bottom: i32 = min_i32(lhs.y + lhs.height, rhs.y + rhs.height);
    right > left && bottom > top
}

/// One rectangle, or nothing where it would cover no point.
pub open spec fn strip(x: int, y: int, width: int, height: int) -> Seq<LogicalRect> {
    if width > 0 && height > 0 {
        seq![rect_of(x, y, width, height)]
    } else {
        Seq::empty()
    }
}

/// What is left of `base` once `cut` is taken out of it: the strips above and below
/// the overlap over the full width of `base`, then those to its left and to its right.
pub open spec fn subtract_pieces(base: LogicalRect, cut: LogicalRect) -> Seq<LogicalRect> {
    match intersect_rects(base, cut) {
        None => seq![base],
        Some(_) => {
            let left = spec_max(base.x as int, cut.x as int);
            let top = spec_max(base.y as int, cut.y as int);
            let right = spec_min(base.right(), cut.right());
            let bottom = spec_min(base.bottom(), cut.bottom());
            strip(base.x as int, base.y as int, base.width as int, top - base.y) + strip(
                base.x as int,
                bottom,
                base.width as int,
                base.bottom() - bottom,
            ) + strip(base.x as int, top, left - base.x, bottom - top) + strip(
                right,
                top,
                base.right() - right,
                bottom - top,
            )
        },
    }
}

/// Appends the rectangle unless it covers no point.
fn push_strip(out: &mut Vec<LogicalRect>, x: i32, y: i32, width: i32, height: i32)
    ensures
        final(out)@ == old(out)@ + strip(x as int, y as int, width as int, height as int),
{
    if width > 0 && height > 0 {
        out.push(LogicalRect::new(x, y, width, height));
    }
}

/// `base` without the points of `cut`, in at most four rectangles.
pub fn subtract_logical_rect(base: LogicalRect, cut: LogicalRect) -> (out: Vec<LogicalRect>)
    requires
        base.fits(),
        cut.fits(),
    ensures
        out@ == subtract_pieces(base, cut),
{
    let left: i32 = max_i32(base.x, cut.x);
    let top: i32 = max_i32(base.y, cut.y);
    let right: i32 = min_i32(base.x + base.width, cut.x + cut.width);
    let bottom: i32 = min_i32(base.y + base.height, cut.y + cut.height);
    let mut out: Vec<LogicalRect> = Vec::new();
    if right <= left || bottom <= top {
        out.push(base);
        return out;
    }
    push_strip(&mut out, base.x, base.y, base.width, top - base.y);
    push_strip(&mut out, base.x, bottom, base.width, base.y + base.height - bottom);
    push_strip(&mut out, base.x, top, left - base.x, bottom - top);
    push_strip(&mut out, right, top, base.x + base.width - right, bottom - top);
    out
}

/// The smallest rectangle around `rects`, by its four edges.
pub open spec fn is_bounding_box(rects: Seq<LogicalRect>, bounds: LogicalRect) -> bool {
    &&& forall|i: int| 0 <= i < rects.len() ==> (#[trigger] rects[i]).within(bounds)
    &&& exists|i: int| 0 <= i < rects.len() && (#[trigger] rects[i]).x == bounds.x
    &&& exists|i: int| 0 <= i < rects.len() && (#[trigger] rects[i]).y == bounds.y
    &&& exists|i: int| 0 <= i < rects.len() && (#[trigger] rects[i]).right() == bounds.right()
    &&& exists|i: int| 0 <= i < rects.len() && (#[trigger] rects[i]).bottom() == bounds.bottom()
}

/// Every far edge is representable, and so are the width and the height of all of `rects`
/// together.
pub open spec fn extents_fit(rects: Seq<LogicalRect>) -> bool {
    &&& forall|i: int| 0 <= i < rects.len() ==> (#[trigger] rects[i]).fits()
    &&& forall|i: int, j: int|
        0 <= i < rects.len() && 0 <= j < rects.len() ==> (#[trigger] rects[i]).right() - (
        #[trigger] rects[j]).x <= i32::MAX && rects[i].bottom() - rects[j].y <= i32::MAX
}

/// The smallest rectangle that holds all of `rects`; `None` when there are none.
pub fn bounding_box_for_rects(rects: &[LogicalRect]) -> (r: Option<LogicalRect>)
    requires
        extents_fit(rects@),
    ensures
        r is None <==> rects@.len() == 0,
        r is Some ==> is_bounding_box(rects@, r->0),
{
    if rects.len() == 0 {
        return None;
    }
    let first: LogicalRect = rects[0];
    let mut left: i32 = first.x;
    let mut top: i32 = first.y;
    let mut right: i32 = first.x + first.width;
    let mut bottom: i32 = first.y + first.height;
    let mut index: usize = 1;
    while index < rects.len()
        invariant
            1 <= index <= rects@.len(),
            extents_fit(rects@),
            forall|i: int|
                0 <= i < index ==> left <= (#[trigger] rects@[i]).x && top <= rects@[i].y
                    && rects@[i].right() <= right && rects@[i].bottom() <= bottom,
            exists|i: int| 0 <= i < index && (#[trigger] rects@[i]).x == left,
            exists|i: int| 0 <= i < index && (#[trigger] rects@[i]).y == top,
            exists|i: int| 0 <= i < index && (#[trigger] rects@[i]).right() == right,
            exists|i: int| 0 <= i < index && (#[trigger] rects@[i]).bottom() == bottom,
        decreases rects@.len() - index,
    {
        let rect: LogicalRect = rects[index];
        assert(rect == rects@[index as int]);
        left = min_i32(left, rect.x);
        top = min_i32(top, rect.y);
        right = max_i32(right, rect.x + rect.width);
        bottom = max_i32(bottom, rect.y + rect.height);
        index += 1;
    }
    assert(rects@[0].right() - rects@[0].x >= i32::MIN);
    assert(rects@[0].bottom() - rects@[0].y >= i32::MIN);
    Some(LogicalRect::new(left, top, right - left, bottom - top))
}

/// Grows `rect` by the outsets; each coordinate stays within the range of `i32`.
pub fn expand_logical_rect(rect: LogicalRect, outsets: EffectOutsets) -> (r: LogicalRect)
    ensures
        r == expanded_rect(rect, outsets),
{
    LogicalRect::new(
        saturating_sub_i32(rect.x, outsets.left),
        saturating_sub_i32(rect.y, outsets.top),
        saturating_add_i32(saturating_add_i32(rect.width, outsets.left), outsets.right),
        saturating_add_i32(saturating_add_i32(rect.height, outsets.top), outsets.bottom),
    )
}

/// `rect` with each edge pushed outwards by its outset. The two outsets of an axis are
/// added to the size one after the other, and each sum is held within `i32`.
pub open spec fn expanded_rect(rect: LogicalRect, outsets: EffectOutsets) -> LogicalRect {
    rect_of(
        saturate_i32(rect.x - outsets.left),
        saturate_i32(rect.y - outsets.top),
        saturate_i32(saturate_i32(rect.width + outsets.left) + outsets.right),
        saturate_i32(saturate_i32(rect.height + outsets.top) + outsets.bottom),
    )
}

/// The common part of two rectangles whose far edges are held within `i32`. A rectangle
/// without extent still has a common part with one that strictly surrounds it.
pub open spec fn saturated_intersection(a: LogicalRect, b: LogicalRect) -> Option<LogicalRect> {
    let a_right = saturate_i32(a.right());
    let a_bottom = saturate_i32(a.bottom());
    let b_right = saturate_i32(b.right());
    let b_bottom = saturate_i32(b.bottom());
    if a.x < b_right && b.x < a_right && a.y < b_bottom && b.y < a_bottom {
        let left = spec_max(a.x as int, b.x as int);
        let top = spec_max(a.y as int, b.y as int);
        Some(
            rect_of(
                left,
                top,
                saturate_i32(spec_min(a_right, b_right) - left),
                saturate_i32(spec_min(a_bottom, b_bottom) - top),
            ),
        )
    } else {
        None
    }
}

/// The overlap of two rectangles, wherever they lie.
pub fn rectangle_intersection(a: LogicalRect, b: LogicalRect) -> (r: Option<LogicalRect>)
    ensures
        r == saturated_intersection(a, b),
{
    let a_right: i32 = saturating_add_i32(a.x, a.width);
    let a_bottom: i32 = saturating_add_i32(a.y, a.height);
    let b_right: i32 = saturating_add_i32(b.x, b.width);
    let b_bottom: i32 = saturating_add_i32(b.y, b.height);
    if a.x < b_right && b.x < a_right && a.y < b_bottom && b.y < a_bottom {
        let left: i32 = max_i32(a.x, b.x);
        let top: i32 = max_i32(a.y, b.y);
        Some(
            LogicalRect::new(
                left,
                top,
                saturating_sub_i32(min_i32(a_right, b_right), left),
                saturating_sub_i32(min_i32(a_bottom, b_bottom), top),
            ),
        )
    } else {
        None
    }
}

/// The part of `capture` that lies on the output; all of it when none does.
pub open spec fn clipped_capture(capture: LogicalRect, output_geo: LogicalRect) -> LogicalRect {
    match saturated_intersection(capture, output_geo) {
        Some(visible) => visible,
        None => capture,
    }
}

/// The area that has to be captured for an effect that needs `capture`.
pub fn clip_capture_to_output(capture: LogicalRect, output_geo: LogicalRect) -> (r: LogicalRect)
    ensures
        r == clipped_capture(capture, output_geo),
{
    match rectangle_intersection(capture, output_geo) {
        Some(visible) => visible,
        None => capture,
    }
}

/// How many of the rectangles cover the point.
pub open spec fn cover_count(rects: Seq<LogicalRect>, px: int, py: int) -> nat
    decreases rects.len(),
{
    if rects.len() == 0 {
        0
    } else {
        cover_count(rects.drop_last(), px, py) + (if rects.last().covers(px, py) {
            1nat
        } else {
            0nat
        })
    }
}

/// Every rectangle lies within `bounds` and covers at least one point.
pub open spec fn all_solid_within(rects: Seq<LogicalRect>, bounds: LogicalRect) -> bool {
    forall|i: int|
        0 <= i < rects.len() ==> (#[trigger] rects[i]).within(bounds) && rects[i].is_solid()
}

pub proof fn lemma_cover_count_concat(a: Seq<LogicalRect>, b: Seq<LogicalRect>, px: int, py: int)
    ensures
        cover_count(a + b, px, py) == cover_count(a, px, py) + cover_count(b, px, py),
    decreases b.len(),
{
    if b.len() == 0 {
        assert(a + b =~= a);
    } else {
        assert((a + b).drop_last() =~= a + b.drop_last());
        lemma_cover_count_concat(a, b.drop_last(), px, py);
    }
}

pub proof fn lemma_cover_count_strip(x: int, y: int, width: int, height: int, px: int, py: int)
    requires
        fits_i32(x),
        fits_i32(y),
        fits_i32(width),
        fits_i32(height),
    ensures
        cover_count(strip(x, y, width, height), px, py) == (if x <= px < x + width && y <= py < y
            + height {
            1nat
        } else {
            0nat
        }),
{
    reveal_with_fuel(cover_count, 2);
}

/// The count of a point is zero exactly when no rectangle covers it.
pub proof fn lemma_cover_count_positive(rects: Seq<LogicalRect>, px: int, py: int)
    ensures
        cover_count(rects, px, py) > 0 <==> exists|i: int|
            0 <= i < rects.len() && (#[trigger] rects[i]).covers(px, py),
    decreases rects.len(),
{
    if rects.len() > 0 {
        let init = rects.drop_last();
        lemma_cover_count_positive(init, px, py);
        if cover_count(rects, px, py) > 0 {
            if rects.last().covers(px, py) {
                assert(rects[rects.len() - 1].covers(px, py));
            } else {
                let i = choose|i: int| 0 <= i < init.len() && (#[trigger] init[i]).covers(px, py);
                assert(rects[i].covers(px, py));
            }
        }
        if exists|i: int| 0 <= i < rects.len() && (#[trigger] rects[i]).covers(px, py) {
            let i = choose|i: int| 0 <= i < rects.len() && (#[trigger] rects[i]).covers(px, py);
            if i < rects.len() - 1 {
                assert(init[i].covers(px, py));
            }
        }
    }
}

/// A point that no two rectangles share is counted at most once, and the other way round.
pub proof fn law_counted_once_means_disjoint(rects: Seq<LogicalRect>, i: int, j: int)
    requires
        0 <= i < j < rects.len(),
        forall|px: int, py: int| #[trigger] cover_count(rects, px, py) <= 1,
    ensures
        rects[i].disjoint_from(rects[j]),
{
    assert forall|px: int, py: int| !(#[trigger] rects[i].covers(px, py) && rects[j].covers(px, py)) by {
        if rects[i].covers(px, py) && rects[j].covers(px, py) {
            let head = rects.subrange(0, j);
            let tail = rects.subrange(j, rects.len() as int);
            assert(head + tail =~= rects);
            lemma_cover_count_concat(head, tail, px, py);
            lemma_cover_count_positive(head, px, py);
            lemma_cover_count_positive(tail, px, py);
            assert(head[i].covers(px, py));
            assert(tail[0].covers(px, py));
        }
    }
}

/// The overlap of two rectangles covers the points that both cover.
pub proof fn law_intersection_is_common_part(a: LogicalRect, b: LogicalRect, px: int, py: int)
    requires
        a.fits(),
        b.fits(),
    ensures
        (a.covers(px, py) && b.covers(px, py)) <==> (intersect_rects(a, b) matches Some(r)
            && r.covers(px, py)),
        intersect_rects(a, b) matches Some(r) ==> r.is_solid() && r.within(a) && r.within(b),
        intersect_rects(a, b) == intersect_rects(b, a),
{
}

/// Taking `cut` out of `base` leaves each point of `base` that is not in `cut` in exactly
/// one piece, and no other point in any.
pub proof fn law_subtract_partitions(base: LogicalRect, cut: LogicalRect, px: int, py: int)
    requires
        base.fits(),
        cut.fits(),
    ensures
        cover_count(subtract_pieces(base, cut), px, py) == (if base.covers(px, py) && !cut.covers(
            px,
            py,
        ) {
            1nat
        } else {
            0nat
        }),
{
    if intersect_rects(base, cut) is None {
        reveal_with_fuel(cover_count, 2);
    } else {
        let left = spec_max(base.x as int, cut.x as int);
        let top = spec_max(base.y as int, cut.y as int);
        let right = spec_min(base.right(), cut.right());
        let bottom = spec_min(base.bottom(), cut.bottom());
        let a = strip(base.x as int, base.y as int, base.width as int, top - base.y);
        let b = strip(base.x as int, bottom, base.width as int, base.bottom() - bottom);
        let c = strip(base.x as int, top, left - base.x, bottom - top);
        let d = strip(right, top, base.right() - right, bottom - top);
        lemma_cover_count_concat(a, b, px, py);
        lemma_cover_count_concat(a + b, c, px, py);
        lemma_cover_count_concat(a + b + c, d, px, py);
        lemma_cover_count_strip(
            base.x as int,
            base.y as int,
            base.width as int,
            top - base.y,
            px,
            py,
        );
        lemma_cover_count_strip(
            base.x as int,
            bottom,
            base.width as int,
            base.bottom() - bottom,
            px,
            py,
        );
        lemma_cover_count_strip(base.x as int, top, left - base.x, bottom - top, px, py);
        lemma_cover_count_strip(right, top, base.right() - right, bottom - top, px, py);
    }
}

/// No piece reaches beyond the rectangle it was cut from.
pub proof fn law_subtract_stays_within(base: LogicalRect, cut: LogicalRect)
    requires
        base.fits(),
        cut.fits(),
        base.is_solid(),
    ensures
        all_solid_within(subtract_pieces(base, cut), base),
        subtract_pieces(base, cut).len() <= 4,
{
}

/// Any rectangle that holds all of `rects` holds their bounding box.
pub proof fn law_bounding_box_is_least(
    rects: Seq<LogicalRect>,
    bounds: LogicalRect,
    other: LogicalRect,
)
    requires
        is_bounding_box(rects, bounds),
        forall|i: int| 0 <= i < rects.len() ==> (#[trigger] rects[i]).within(other),
    ensures
        bounds.within(other),
{
}

/// A rectangle has at most one bounding box.
pub proof fn law_bounding_box_is_unique(
    rects: Seq<LogicalRect>,
    a: LogicalRect,
    b: LogicalRect,
)
    requires
        is_bounding_box(rects, a),
        is_bounding_box(rects, b),
    ensures
        a == b,
{
    law_bounding_box_is_least(rects, a, b);
    law_bounding_box_is_least(rects, b, a);
}

/// The bounding box does not depend on the order of the rectangles, nor on how often each
/// of them occurs, and neither does whether it can be computed.
pub proof fn law_bounding_box_ignores_order(rects: Seq<LogicalRect>, other: Seq<LogicalRect>)
    requires
        forall|rect: LogicalRect| rects.contains(rect) <==> other.contains(rect),
    ensures
        extents_fit(rects) <==> extents_fit(other),
        forall|bounds: LogicalRect| #[trigger]
            is_bounding_box(rects, bounds) <==> is_bounding_box(other, bounds),
{
    lemma_bounds_of_same_rects(rects, other);
    lemma_bounds_of_same_rects(other, rects);
}

proof fn lemma_bounds_of_same_rects(rects: Seq<LogicalRect>, other: Seq<LogicalRect>)
    requires
        forall|rect: LogicalRect| rects.contains(rect) <==> other.contains(rect),
    ensures
        extents_fit(rects) ==> extents_fit(other),
        forall|bounds: LogicalRect| #[trigger]
            is_bounding_box(rects, bounds) ==> is_bounding_box(other, bounds),
{
    assert forall|i: int| 0 <= i < other.len() implies rects.contains(#[trigger] other[i]) by {
        assert(other.contains(other[i]));
    }
    assert forall|i: int| 0 <= i < rects.len() implies other.contains(#[trigger] rects[i]) by {
        assert(rects.contains(rects[i]));
    }
}

/// Away from the limits of `i32`, growing a rectangle by outsets that are not negative
/// keeps every point it covered.
pub proof fn law_expanding_keeps_points(
    rect: LogicalRect,
    outsets: EffectOutsets,
    px: int,
    py: int,
)
    requires
        outsets.left >= 0,
        outsets.right >= 0,
        outsets.top >= 0,
        outsets.bottom >= 0,
        fits_i32(rect.x - outsets.left),
        fits_i32(rect.y - outsets.top),
        fits_i32(rect.width + outsets.left + outsets.right),
        fits_i32(rect.height + outsets.top + outsets.bottom),
        rect.covers(px, py),
    ensures
        expanded_rect(rect, outsets).covers(px, py),
{
}

/// Where no far edge leaves `i32` and both rectangles have an extent, the two notions of
/// overlap agree.
pub proof fn law_intersections_agree(a: LogicalRect, b: LogicalRect)
    requires
        a.fits(),
        b.fits(),
        a.is_solid(),
        b.is_solid(),
    ensures
        saturated_intersection(a, b) == intersect_rects(a, b),
{
}

/// Moving a rectangle moves the points that it covers, and seeing it from an origin moves them
/// the other way.
pub proof fn law_moved_rectangles(
    rect: LogicalRect,
    dx: i32,
    dy: i32,
    moved: LogicalRect,
    origin: LogicalPoint,
    seen: LogicalRect,
    corner: LogicalPoint,
    px: int,
    py: int,
)
    requires
        fits_i32(rect.x + dx),
        fits_i32(rect.y + dy),
        rect.fits_from(origin),
        call_ensures(LogicalRect::translated, (rect, dx, dy), moved),
        call_ensures(LogicalRect::relative_to, (rect, origin), seen),
        call_ensures(LogicalRect::location, (rect,), corner),
    ensures
        moved.covers(px + dx, py + dy) <==> rect.covers(px, py),
        seen.covers(px - origin.x, py - origin.y) <==> rect.covers(px, py),
        moved.width == rect.width && moved.height == rect.height,
        seen.width == rect.width && seen.height == rect.height,
        corner.x == rect.x && corner.y == rect.y,
{
}

/// The larger and the smaller of two numbers.
pub proof fn law_larger_and_smaller(a: i32, b: i32, larger: i32, smaller: i32)
    requires
        call_ensures(max_i32, (a, b), larger),
        call_ensures(min_i32, (a, b), smaller),
    ensures
        larger >= a && larger >= b && smaller <= a && smaller <= b,
        larger + smaller == a + b,
{
}

/// Sums and differences are exact as far as they can be held, and at the nearest end otherwise.
pub proof fn law_held_sums(a: i32, b: i32, sum: i32, difference: i32)
    requires
        call_ensures(saturating_add_i32, (a, b), sum),
        call_ensures(saturating_sub_i32, (a, b), difference),
    ensures
        fits_i32(a + b) ==> sum == a + b,
        a + b > i32::MAX ==> sum == i32::MAX,
        a + b < i32::MIN ==> sum == i32::MIN,
        fits_i32(a - b) ==> difference == a - b,
        a - b > i32::MAX ==> difference == i32::MAX,
        a - b < i32::MIN ==> difference == i32::MIN,
{
}

/// The overlap of two rectangles is what both cover, and they overlap exactly if they share a
/// point.
pub proof fn law_overlaps(
    a: LogicalRect,
    b: LogicalRect,
    overlap: Option<LogicalRect>,
    intersect: bool,
    px: int,
    py: int,
)
    requires
        a.fits(),
        b.fits(),
        call_ensures(intersect_logical_rects, (a, b), overlap),
        call_ensures(logical_rects_intersect, (a, b), intersect),
    ensures
        a.covers(px, py) && b.covers(px, py) <==> overlap is Some && overlap->0.covers(px, py),
        a.covers(px, py) && b.covers(px, py) ==> intersect,
        intersect <==> overlap is Some,
        overlap is Some ==> !a.disjoint_from(b),
        overlap is Some ==> overlap->0.is_solid(),
{
    law_intersection_is_common_part(a, b, px, py);
    if overlap is Some {
        law_intersection_is_common_part(a, b, overlap->0.x as int, overlap->0.y as int);
        assert(overlap->0.covers(overlap->0.x as int, overlap->0.y as int));
        assert(a.covers(overlap->0.x as int, overlap->0.y as int) && b.covers(
            overlap->0.x as int,
            overlap->0.y as int,
        ));
    }
}

/// Taking a rectangle out of another leaves exactly the points that are in the other alone, each
/// of them in one piece.
pub proof fn law_what_is_left(
    base: LogicalRect,
    cut: LogicalRect,
    out: Vec<LogicalRect>,
    px: int,
    py: int,
)
    requires
        base.fits(),
        cut.fits(),
        call_ensures(subtract_logical_rect, (base, cut), out),
    ensures
        (exists|i: int| 0 <= i < out@.len() && (#[trigger] out@[i]).covers(px, py)) <==> base.covers(
            px,
            py,
        ) && !cut.covers(px, py),
        forall|i: int, j: int|
            0 <= i < j < out@.len() && (#[trigger] out@[i]).covers(px, py) ==> !(
            #[trigger] out@[j]).covers(px, py),
{
    law_subtract_partitions(base, cut, px, py);
    lemma_cover_count_positive(out@, px, py);
    assert forall|i: int, j: int|
        0 <= i < j < out@.len() && (#[trigger] out@[i]).covers(px, py) implies !(
    #[trigger] out@[j]).covers(px, py) by {
        assert forall|qx: int, qy: int| #[trigger] cover_count(out@, qx, qy) <= 1 by {
            law_subtract_partitions(base, cut, qx, qy);
        }
        law_counted_once_means_disjoint(out@, i, j);
    }
}

/// The bounding box holds every rectangle, and each of its edges is that of one of them.
pub proof fn law_bounding_boxes(
    rects: &[LogicalRect],
    bounds: Option<LogicalRect>,
    i: int,
    px: int,
    py: int,
)
    requires
        extents_fit(rects@),
        call_ensures(bounding_box_for_rects, (rects,), bounds),
    ensures
        bounds is None <==> rects@.len() == 0,
        0 <= i < rects@.len() && rects@[i].covers(px, py) ==> bounds->0.covers(px, py),
        bounds is Some ==> exists|k: int|
            0 <= k < rects@.len() && (#[trigger] rects@[k]).x == bounds->0.x,
        bounds is Some ==> exists|k: int|
            0 <= k < rects@.len() && (#[trigger] rects@[k]).y == bounds->0.y,
        bounds is Some ==> exists|k: int|
            0 <= k < rects@.len() && (#[trigger] rects@[k]).right() == bounds->0.right(),
        bounds is Some ==> exists|k: int|
            0 <= k < rects@.len() && (#[trigger] rects@[k]).bottom() == bounds->0.bottom(),
{
    if 0 <= i < rects@.len() {
        assert(rects@[i].within(bounds->0));
    }
}

/// Growing a rectangle moves each edge outwards by its own outset.
pub proof fn law_grown_rectangles(rect: LogicalRect, outsets: EffectOutsets, r: LogicalRect)
    requires
        call_ensures(expand_logical_rect, (rect, outsets), r),
        fits_i32(rect.x - outsets.left),
        fits_i32(rect.y - outsets.top),
        fits_i32(rect.width + outsets.left),
        fits_i32(rect.width + outsets.left + outsets.right),
        fits_i32(rect.height + outsets.top),
        fits_i32(rect.height + outsets.top + outsets.bottom),
    ensures
        r.x == rect.x - outsets.left,
        r.y == rect.y - outsets.top,
        r.right() == rect.right() + outsets.right,
        r.bottom() == rect.bottom() + outsets.bottom,
{
}

/// What is captured is what of the area is on the output; all of it where nothing is.
pub proof fn law_captured_areas(
    capture: LogicalRect,
    output_geo: LogicalRect,
    overlap: Option<LogicalRect>,
    r: LogicalRect,
    px: int,
    py: int,
)
    requires
        capture.fits(),
        output_geo.fits(),
        capture.is_solid(),
        output_geo.is_solid(),
        call_ensures(rectangle_intersection, (capture, output_geo), overlap),
        call_ensures(clip_capture_to_output, (capture, output_geo), r),
    ensures
        overlap is Some && overlap->0.covers(px, py) <==> capture.covers(px, py)
            && output_geo.covers(px, py),
        overlap is Some <==> !capture.disjoint_from(output_geo),
        overlap is Some ==> r == overlap->0,
        overlap is None ==> r == capture,
{
    law_intersections_agree(capture, output_geo);
    law_intersection_is_common_part(capture, output_geo, px, py);
    if overlap is Some {
        let x = overlap->0.x as int;
        let y = overlap->0.y as int;
        law_intersection_is_common_part(capture, output_geo, x, y);
        assert(overlap->0.covers(x, y));
        assert(capture.covers(x, y) && output_geo.covers(x, y));
    } else {
        assert forall|qx: int, qy: int| !(#[trigger] capture.covers(qx, qy) && output_geo.covers(
            qx,
            qy,
        )) by {
            law_intersection_is_common_part(capture, output_geo, qx, qy);
        }
    }
}

} // verus!
