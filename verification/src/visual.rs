//! How a window's geometry is placed on an output.

use crate::geometry::{self, LogicalPoint, LogicalRect};
use vstd::prelude::*;

verus! {

/// Which edges of a rectangle are rounded to physical pixels.
#[derive(Clone, Copy, Debug, PartialEq, Eq, Structural)]
pub enum RectSnapMode {
    /// All four edges, so that neighbours that share an edge still share it.
    SharedEdges,
    /// The origin and the size.
    OriginAndSize,
}

/// A render element whose claims about opaque regions are discarded.
#[derive(Debug)]
pub struct IgnoredOpaqueRegionElement<E> {
    element: E,
}

impl<E> IgnoredOpaqueRegionElement<E> {
    /// The element that is wrapped.
    pub closed spec fn inner(self) -> E {
        self.element
    }

    pub fn from_element(element: E) -> (wrapped: Self)
        ensures
            wrapped.inner() == element,
    {
        IgnoredOpaqueRegionElement { element }
    }

    pub fn element(&self) -> (element: &E)
        ensures
            *element == self.inner(),
    {
        &self.element
    }

    /// No region is taken to be opaque, whatever the element claims, so what lies behind it
    /// is drawn as well.
    pub fn opaque_regions(&self) -> (regions: Vec<LogicalRect>)
        ensures
            regions@ == Seq::<LogicalRect>::empty(),
    {
        Vec::new()
    }
}

/// A window that is neither moved nor scaled is drawn as it is. Opacity plays no part:
/// it is applied to each element. `requires_full_window_snapshot` tells that the window
/// is scaled.
pub fn is_identity_visual_geometry(
    translation: LogicalPoint,
    requires_full_window_snapshot: bool,
) -> (identity: bool)
    ensures
        identity == (translation.x == 0 && translation.y == 0 && !requires_full_window_snapshot),
{
    translation.x == 0 && translation.y == 0 && !requires_full_window_snapshot
}

/// The edges of a rectangle.
#[derive(Clone, Copy, Debug, PartialEq, Eq, Structural)]
pub struct Edges {
    pub left: i32,
    pub top: i32,
    pub right: i32,
    pub bottom: i32,
}

pub open spec fn edges_of(rect: LogicalRect, origin: LogicalPoint) -> Edges {
    Edges {
        left: (rect.x - origin.x) as i32,
        top: (rect.y - origin.y) as i32,
        right: (rect.right() - origin.x) as i32,
        bottom: (rect.bottom() - origin.y) as i32,
    }
}

pub open spec fn edges_fit(rect: LogicalRect, origin: LogicalPoint) -> bool {
    &&& rect.fits()
    &&& rect.fits_from(origin)
    &&& geometry::fits_i32(rect.right() - origin.x)
    &&& geometry::fits_i32(rect.bottom() - origin.y)
}

/// The edges of a rectangle in coordinates that start at `origin`. Edges are scaled to
/// pixels and rounded one by one, so that neighbours share them.
pub fn relative_edges(rect: LogicalRect, origin: LogicalPoint) -> (edges: Edges)
    requires
        edges_fit(rect, origin),
    ensures
        edges == edges_of(rect, origin),
{
    Edges {
        left: rect.x - origin.x,
        top: rect.y - origin.y,
        right: (rect.x + rect.width) - origin.x,
        bottom: (rect.y + rect.height) - origin.y,
    }
}

/// The rectangle between edges that were rounded to pixels, never of negative size.
pub fn rect_from_edges(edges: Edges) -> (rect: LogicalRect)
    requires
        geometry::fits_i32(edges.right - edges.left),
        geometry::fits_i32(edges.bottom - edges.top),
    ensures
        rect == geometry::rect_of(
            edges.left as int,
            edges.top as int,
            geometry::spec_max(edges.right - edges.left, 0),
            geometry::spec_max(edges.bottom - edges.top, 0),
        ),
{
    LogicalRect::new(
        edges.left,
        edges.top,
        geometry::max_i32(edges.right - edges.left, 0),
        geometry::max_i32(edges.bottom - edges.top, 0),
    )
}

/// Where a point is relative to another, both in pixels.
pub fn relative_point(point: LogicalPoint, origin: LogicalPoint) -> (r: LogicalPoint)
    requires
        geometry::fits_i32(point.x - origin.x),
        geometry::fits_i32(point.y - origin.y),
    ensures
        r.x == point.x - origin.x,
        r.y == point.y - origin.y,
{
    LogicalPoint { x: point.x - origin.x, y: point.y - origin.y }
}

/// What is rounded for a part of a window does not depend on where the window is: when both
/// move by the same distance, the edges relative to the window stay the same.
pub proof fn law_edges_do_not_depend_on_position(
    rect: LogicalRect,
    root: LogicalRect,
    moved_rect: LogicalRect,
    moved_root: LogicalRect,
)
    requires
        rect.width == moved_rect.width,
        rect.height == moved_rect.height,
        moved_rect.x - rect.x == moved_root.x - root.x,
        moved_rect.y - rect.y == moved_root.y - root.y,
    ensures
        edges_of(rect, root.corner()) == edges_of(moved_rect, moved_root.corner()),
{
}

/// Without any rounding, the edges of a rectangle give it back.
pub proof fn law_edges_give_the_rectangle_back(rect: LogicalRect)
    requires
        rect.fits(),
        rect.width >= 0,
        rect.height >= 0,
    ensures
        ({
            let edges = edges_of(rect, (LogicalPoint { x: 0, y: 0 }));
            geometry::rect_of(
                edges.left as int,
                edges.top as int,
                geometry::spec_max(edges.right - edges.left, 0),
                geometry::spec_max(edges.bottom - edges.top, 0),
            ) == rect
        }),
{
}

/// A window is drawn as it is exactly if it is neither moved, in either direction, nor scaled.
pub proof fn law_windows_at_rest(translation: LogicalPoint, scaled: bool, identity: bool)
    requires
        call_ensures(is_identity_visual_geometry, (translation, scaled), identity),
    ensures
        identity ==> translation.x == 0,
        identity ==> translation.y == 0,
        identity ==> !scaled,
        translation.x == 0 && translation.y == 0 && !scaled ==> identity,
{
}

/// Nothing is taken to be opaque, and the element that is wrapped is the one that comes out.
pub proof fn law_wrapped_elements<E>(
    element: E,
    wrapped: IgnoredOpaqueRegionElement<E>,
    again: IgnoredOpaqueRegionElement<E>,
    out: &E,
    regions: Vec<LogicalRect>,
)
    requires
        call_ensures(IgnoredOpaqueRegionElement::<E>::from_element, (element,), wrapped),
        call_ensures(IgnoredOpaqueRegionElement::<E>::element, (&again,), out),
        call_ensures(IgnoredOpaqueRegionElement::<E>::opaque_regions, (&again,), regions),
    ensures
        wrapped == again ==> *out == element,
        regions@.len() == 0,
{
}

/// Edges are counted from the origin, and the distance between opposite edges is the size.
pub proof fn law_edges_from_an_origin(rect: LogicalRect, origin: LogicalPoint, edges: Edges)
    requires
        edges_fit(rect, origin),
        call_ensures(relative_edges, (rect, origin), edges),
    ensures
        edges.left + origin.x == rect.x,
        edges.top + origin.y == rect.y,
        edges.right - edges.left == rect.width,
        edges.bottom - edges.top == rect.height,
{
}

/// A rectangle lies between its edges; edges that have crossed leave nothing.
pub proof fn law_rects_between_edges(edges: Edges, rect: LogicalRect)
    requires
        geometry::fits_i32(edges.right - edges.left),
        geometry::fits_i32(edges.bottom - edges.top),
        call_ensures(rect_from_edges, (edges,), rect),
    ensures
        rect.x == edges.left,
        rect.y == edges.top,
        edges.left <= edges.right ==> rect.right() == edges.right,
        edges.top <= edges.bottom ==> rect.bottom() == edges.bottom,
        edges.right < edges.left ==> rect.width == 0,
        edges.bottom < edges.top ==> rect.height == 0,
{
}

/// A point relative to another gives the point back.
pub proof fn law_points_relative_to_points(point: LogicalPoint, origin: LogicalPoint, r: LogicalPoint)
    requires
        call_ensures(relative_point, (point, origin), r),
    ensures
        r.x + origin.x == point.x,
        r.y + origin.y == point.y,
{
}

} // verus!
