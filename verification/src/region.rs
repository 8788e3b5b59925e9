//! Regions that clients describe as a list of rectangles to add and to subtract.

use crate::geometry::{self, LogicalPoint, LogicalRect};
use vstd::prelude::*;

verus! {

/// What a rectangle of a region does to the rectangles before it.
#[derive(Clone, Copy, Debug, PartialEq, Eq, Structural)]
pub enum RectangleKind {
    Add,
    Subtract,
}

/// A region: rectangles that are added and subtracted in order.
pub struct RegionAttributes {
    pub rects: Vec<(RectangleKind, LogicalRect)>,
}

impl RegionAttributes {
    pub open spec fn fits(self) -> bool {
        forall|i: int| 0 <= i < self.rects@.len() ==> (#[trigger] self.rects@[i]).1.fits()
    }
}

/// Whether the point belongs to the region: the last rectangle that covers it decides.
pub open spec fn region_covers(rects: Seq<(RectangleKind, LogicalRect)>, px: int, py: int) -> bool
    decreases rects.len(),
{
    if rects.len() == 0 {
        false
    } else if rects.last().1.covers(px, py) {
        rects.last().0 == RectangleKind::Add
    } else {
        region_covers(rects.drop_last(), px, py)
    }
}

/// Each rectangle in turn with `cut` taken out of it.
pub open spec fn subtract_from_each(rects: Seq<LogicalRect>, cut: LogicalRect) -> Seq<LogicalRect>
    decreases rects.len(),
{
    if rects.len() == 0 {
        Seq::empty()
    } else {
        subtract_from_each(rects.drop_last(), cut) + geometry::subtract_pieces(rects.last(), cut)
    }
}

/// The rectangles with each of `cuts` taken out of them, one after the other.
pub open spec fn subtract_each(rects: Seq<LogicalRect>, cuts: Seq<LogicalRect>) -> Seq<LogicalRect>
    decreases cuts.len(),
{
    if cuts.len() == 0 {
        rects
    } else {
        subtract_from_each(subtract_each(rects, cuts.drop_last()), cuts.last())
    }
}

/// The rectangles that make up the region inside `bounds`. An added rectangle contributes
/// what the rectangles before it do not hold yet.
pub open spec fn region_pieces(
    rects: Seq<(RectangleKind, LogicalRect)>,
    bounds: LogicalRect,
) -> Seq<LogicalRect>
    decreases rects.len(),
{
    if rects.len() == 0 {
        Seq::empty()
    } else {
        let current = region_pieces(rects.drop_last(), bounds);
        match geometry::intersect_rects(bounds, rects.last().1) {
            None => current,
            Some(clipped) => match rects.last().0 {
                RectangleKind::Add => current + subtract_each(seq![clipped], current),
                RectangleKind::Subtract => subtract_from_each(current, clipped),
            },
        }
    }
}

proof fn lemma_subtract_from_each_count(
    rects: Seq<LogicalRect>,
    cut: LogicalRect,
    bounds: LogicalRect,
    px: int,
    py: int,
)
    requires
        bounds.fits(),
        cut.fits(),
        geometry::all_solid_within(rects, bounds),
    ensures
        geometry::cover_count(subtract_from_each(rects, cut), px, py) == (if cut.covers(px, py) {
            0nat
        } else {
            geometry::cover_count(rects, px, py)
        }),
    decreases rects.len(),
{
    if rects.len() > 0 {
        let init = rects.drop_last();
        assert forall|i: int| 0 <= i < init.len() implies (#[trigger] init[i]).within(bounds)
            && init[i].is_solid() by {
            assert(init[i] == rects[i]);
        }
        lemma_subtract_from_each_count(init, cut, bounds, px, py);
        assert(rects.last() == rects[rects.len() - 1]);
        geometry::law_subtract_partitions(rects.last(), cut, px, py);
        geometry::lemma_cover_count_concat(
            subtract_from_each(init, cut),
            geometry::subtract_pieces(rects.last(), cut),
            px,
            py,
        );
    }
}

proof fn lemma_subtract_from_each_within(
    rects: Seq<LogicalRect>,
    cut: LogicalRect,
    bounds: LogicalRect,
)
    requires
        bounds.fits(),
        cut.fits(),
        geometry::all_solid_within(rects, bounds),
    ensures
        geometry::all_solid_within(subtract_from_each(rects, cut), bounds),
    decreases rects.len(),
{
    if rects.len() > 0 {
        let init = rects.drop_last();
        assert forall|i: int| 0 <= i < init.len() implies (#[trigger] init[i]).within(bounds)
            && init[i].is_solid() by {
            assert(init[i] == rects[i]);
        }
        lemma_subtract_from_each_within(init, cut, bounds);
        let last = rects[rects.len() - 1];
        geometry::law_subtract_stays_within(last, cut);
        let a = subtract_from_each(init, cut);
        let b = geometry::subtract_pieces(last, cut);
        assert forall|i: int| 0 <= i < (a + b).len() implies (#[trigger] (a + b)[i]).within(bounds)
            && (a + b)[i].is_solid() by {
            if i < a.len() {
                assert((a + b)[i] == a[i]);
            } else {
                assert((a + b)[i] == b[i - a.len()]);
            }
        }
    }
}

proof fn lemma_subtract_each(
    rects: Seq<LogicalRect>,
    cuts: Seq<LogicalRect>,
    bounds: LogicalRect,
    px: int,
    py: int,
)
    requires
        bounds.fits(),
        geometry::all_solid_within(rects, bounds),
        geometry::all_solid_within(cuts, bounds),
    ensures
        geometry::all_solid_within(subtract_each(rects, cuts), bounds),
        geometry::cover_count(subtract_each(rects, cuts), px, py) == (if geometry::cover_count(
            cuts,
            px,
            py,
        ) > 0 {
            0nat
        } else {
            geometry::cover_count(rects, px, py)
        }),
    decreases cuts.len(),
{
    if cuts.len() > 0 {
        let init = cuts.drop_last();
        assert forall|i: int| 0 <= i < init.len() implies (#[trigger] init[i]).within(bounds)
            && init[i].is_solid() by {
            assert(init[i] == cuts[i]);
        }
        lemma_subtract_each(rects, init, bounds, px, py);
        let last = cuts[cuts.len() - 1];
        lemma_subtract_from_each_within(subtract_each(rects, init), last, bounds);
        lemma_subtract_from_each_count(subtract_each(rects, init), last, bounds, px, py);
    }
}

/// The rectangles of a region inside `bounds` lie within them, and cover each point of
/// the region there exactly once and no other point.
pub proof fn law_region_pieces_are_the_region(
    rects: Seq<(RectangleKind, LogicalRect)>,
    bounds: LogicalRect,
    px: int,
    py: int,
)
    requires
        bounds.fits(),
        forall|i: int| 0 <= i < rects.len() ==> (#[trigger] rects[i]).1.fits(),
    ensures
        geometry::all_solid_within(region_pieces(rects, bounds), bounds),
        geometry::cover_count(region_pieces(rects, bounds), px, py) == (if bounds.covers(px, py)
            && region_covers(rects, px, py) {
            1nat
        } else {
            0nat
        }),
    decreases rects.len(),
{
    if rects.len() > 0 {
        let init = rects.drop_last();
        assert forall|i: int| 0 <= i < init.len() implies (#[trigger] init[i]).1.fits() by {
            assert(init[i] == rects[i]);
        }
        law_region_pieces_are_the_region(init, bounds, px, py);
        let current = region_pieces(init, bounds);
        let last = rects[rects.len() - 1];
        geometry::law_intersection_is_common_part(bounds, last.1, px, py);
        match geometry::intersect_rects(bounds, last.1) {
            None => {},
            Some(clipped) => {
                match last.0 {
                    RectangleKind::Add => {
                        let added = seq![clipped];
                        assert(added[0] == clipped);
                        assert(geometry::cover_count(added, px, py) == if clipped.covers(px, py) {
                            1nat
                        } else {
                            0nat
                        }) by {
                            reveal_with_fuel(geometry::cover_count, 2);
                        }
                        lemma_subtract_each(added, current, bounds, px, py);
                        geometry::lemma_cover_count_concat(
                            current,
                            subtract_each(added, current),
                            px,
                            py,
                        );
                        let fresh = subtract_each(added, current);
                        assert forall|i: int| 0 <= i < (current + fresh).len() implies (
                        #[trigger] (current + fresh)[i]).within(bounds) && (current
                            + fresh)[i].is_solid() by {
                            if i < current.len() {
                                assert((current + fresh)[i] == current[i]);
                            } else {
                                assert((current + fresh)[i] == fresh[i - current.len()]);
                            }
                        }
                    },
                    RectangleKind::Subtract => {
                        lemma_subtract_from_each_within(current, clipped, bounds);
                        lemma_subtract_from_each_count(current, clipped, bounds, px, py);
                    },
                }
            },
        }
    }
}

/// No two rectangles of a region share a point.
pub proof fn law_region_pieces_are_disjoint(
    rects: Seq<(RectangleKind, LogicalRect)>,
    bounds: LogicalRect,
    i: int,
    j: int,
)
    requires
        bounds.fits(),
        forall|k: int| 0 <= k < rects.len() ==> (#[trigger] rects[k]).1.fits(),
        0 <= i < j < region_pieces(rects, bounds).len(),
    ensures
        region_pieces(rects, bounds)[i].disjoint_from(region_pieces(rects, bounds)[j]),
{
    let pieces = region_pieces(rects, bounds);
    assert forall|px: int, py: int| #[trigger] geometry::cover_count(pieces, px, py) <= 1 by {
        law_region_pieces_are_the_region(rects, bounds, px, py);
    }
    geometry::law_counted_once_means_disjoint(pieces, i, j);
}

fn subtract_from_rects(rects: &Vec<LogicalRect>, cut: LogicalRect, Ghost(bounds): Ghost<
    LogicalRect,
>) -> (out: Vec<LogicalRect>)
    requires
        bounds.fits(),
        cut.fits(),
        geometry::all_solid_within(rects@, bounds),
    ensures
        out@ == subtract_from_each(rects@, cut),
{
    let mut out: Vec<LogicalRect> = Vec::new();
    let mut index: usize = 0;
    while index < rects.len()
        invariant
            index <= rects@.len(),
            bounds.fits(),
            cut.fits(),
            geometry::all_solid_within(rects@, bounds),
            out@ == subtract_from_each(rects@.take(index as int), cut),
        decreases rects@.len() - index,
    {
        let rect: LogicalRect = rects[index];
        assert(rects@[index as int].within(bounds));
        let mut pieces: Vec<LogicalRect> = geometry::subtract_logical_rect(rect, cut);
        out.append(&mut pieces);
        assert(rects@.take(index + 1).drop_last() =~= rects@.take(index as int));
        index += 1;
    }
    assert(rects@.take(rects@.len() as int) =~= rects@);
    out
}

proof fn lemma_subtract_from_nothing(cuts: Seq<LogicalRect>, done: int)
    requires
        0 <= done <= cuts.len(),
    ensures
        forall|rects: Seq<LogicalRect>|
            subtract_each(rects, cuts.take(done)).len() == 0 ==> (#[trigger] subtract_each(
                rects,
                cuts,
            )).len() == 0,
    decreases cuts.len() - done,
{
    if done < cuts.len() {
        lemma_subtract_from_nothing(cuts, done + 1);
        assert(cuts.take(done + 1).drop_last() =~= cuts.take(done));
        assert forall|rects: Seq<LogicalRect>|
            subtract_each(rects, cuts.take(done)).len() == 0 implies (#[trigger] subtract_each(
            rects,
            cuts,
        )).len() == 0 by {
            assert(subtract_each(rects, cuts.take(done + 1)).len() == 0);
        }
    } else {
        assert(cuts.take(done) =~= cuts);
    }
}

/// The region inside `bounds`, as rectangles that do not overlap.
pub fn region_rects_within_bounds(region: &RegionAttributes, bounds: LogicalRect) -> (out: Vec<
    LogicalRect,
>)
    requires
        bounds.fits(),
        region.fits(),
    ensures
        out@ == region_pieces(region.rects@, bounds),
{
    let mut current: Vec<LogicalRect> = Vec::new();
    let mut index: usize = 0;
    while index < region.rects.len()
        invariant
            index <= region.rects@.len(),
            bounds.fits(),
            region.fits(),
            current@ == region_pieces(region.rects@.take(index as int), bounds),
        decreases region.rects@.len() - index,
    {
        let (kind, rect): (RectangleKind, LogicalRect) = region.rects[index];
        proof {
            let done = region.rects@.take(index as int);
            assert(region.rects@.take(index + 1).drop_last() =~= done);
            assert(region.rects@[index as int].1.fits());
            assert forall|i: int| 0 <= i < done.len() implies (#[trigger] done[i]).1.fits() by {
                assert(done[i] == region.rects@[i]);
            }
            law_region_pieces_are_the_region(done, bounds, 0, 0);
            geometry::law_intersection_is_common_part(bounds, rect, 0, 0);
        }
        match geometry::intersect_logical_rects(bounds, rect) {
            None => {},
            Some(clipped) => match kind {
                RectangleKind::Add => {
                    let mut pending: Vec<LogicalRect> = Vec::new();
                    pending.push(clipped);
                    let mut cut: usize = 0;
                    assert(pending@ =~= seq![clipped]);
                    assert(current@.take(0) =~= Seq::<LogicalRect>::empty());
                    while cut < current.len() && pending.len() > 0
                        invariant
                            cut <= current@.len(),
                            bounds.fits(),
                            clipped.is_solid(),
                            clipped.within(bounds),
                            geometry::all_solid_within(current@, bounds),
                            pending@ == subtract_each(seq![clipped], current@.take(cut as int)),
                        decreases current@.len() - cut,
                    {
                        proof {
                            let cuts = current@.take(cut as int);
                            assert forall|i: int| 0 <= i < cuts.len() implies (
                            #[trigger] cuts[i]).within(bounds) && cuts[i].is_solid() by {
                                assert(cuts[i] == current@[i]);
                            }
                            let added = seq![clipped];
                            assert(added[0] == clipped);
                            lemma_subtract_each(added, cuts, bounds, 0, 0);
                            assert(current@.take(cut + 1).drop_last() =~= cuts);
                            assert(current@[cut as int].within(bounds));
                        }
                        pending = subtract_from_rects(&pending, current[cut], Ghost(bounds));
                        cut += 1;
                    }
                    proof {
                        lemma_subtract_from_nothing(current@, cut as int);
                        assert(current@.take(current@.len() as int) =~= current@);
                        assert(pending@ =~= subtract_each(seq![clipped], current@));
                    }
                    current.append(&mut pending);
                },
                RectangleKind::Subtract => {
                    current = subtract_from_rects(&current, clipped, Ghost(bounds));
                },
            },
        }
        index += 1;
    }
    assert(region.rects@.take(region.rects@.len() as int) =~= region.rects@);
    current
}

/// The rectangles moved by `dx` and `dy`.
pub open spec fn moved_by(rects: Seq<LogicalRect>, dx: int, dy: int) -> Seq<LogicalRect> {
    Seq::new(
        rects.len(),
        |i: int|
            geometry::rect_of(
                rects[i].x + dx,
                rects[i].y + dy,
                rects[i].width as int,
                rects[i].height as int,
            ),
    )
}

/// Moving rectangles moves the points they cover with them.
pub proof fn law_moving_moves_points(
    rects: Seq<LogicalRect>,
    dx: int,
    dy: int,
    px: int,
    py: int,
)
    requires
        forall|i: int|
            0 <= i < rects.len() ==> geometry::fits_i32((#[trigger] rects[i]).x + dx)
                && geometry::fits_i32(rects[i].y + dy),
    ensures
        geometry::cover_count(moved_by(rects, dx, dy), px + dx, py + dy) == geometry::cover_count(
            rects,
            px,
            py,
        ),
    decreases rects.len(),
{
    if rects.len() > 0 {
        let init = rects.drop_last();
        assert forall|i: int| 0 <= i < init.len() implies geometry::fits_i32(
            (#[trigger] init[i]).x + dx,
        ) && geometry::fits_i32(init[i].y + dy) by {
            assert(init[i] == rects[i]);
        }
        law_moving_moves_points(init, dx, dy, px, py);
        assert(moved_by(rects, dx, dy).drop_last() =~= moved_by(init, dx, dy));
        let last = rects[rects.len() - 1];
        assert(geometry::fits_i32(last.x + dx));
    }
}

fn translate_rects(rects: &Vec<LogicalRect>, dx: i32, dy: i32) -> (out: Vec<LogicalRect>)
    requires
        forall|i: int|
            0 <= i < rects@.len() ==> geometry::fits_i32((#[trigger] rects@[i]).x + dx)
                && geometry::fits_i32(rects@[i].y + dy),
    ensures
        out@ == moved_by(rects@, dx as int, dy as int),
{
    let mut out: Vec<LogicalRect> = Vec::new();
    let mut index: usize = 0;
    while index < rects.len()
        invariant
            index <= rects@.len(),
            forall|i: int|
                0 <= i < rects@.len() ==> geometry::fits_i32((#[trigger] rects@[i]).x + dx)
                    && geometry::fits_i32(rects@[i].y + dy),
            out@.len() == index,
            forall|i: int|
                0 <= i < index ==> #[trigger] out@[i] == moved_by(rects@, dx as int, dy as int)[i],
        decreases rects@.len() - index,
    {
        let rect: LogicalRect = rects[index];
        assert(geometry::fits_i32(rects@[index as int].x + dx));
        out.push(rect.translated(dx, dy));
        index += 1;
    }
    out
}

/// The region inside `bounds`, moved by `dx` and `dy`.
fn moved_region_rects(region: &RegionAttributes, bounds: LogicalRect, dx: i32, dy: i32) -> (out:
    Vec<LogicalRect>)
    requires
        bounds.fits(),
        region.fits(),
        geometry::fits_i32(bounds.x + dx),
        geometry::fits_i32(bounds.y + dy),
        geometry::fits_i32(bounds.right() + dx),
        geometry::fits_i32(bounds.bottom() + dy),
    ensures
        out@ == moved_by(region_pieces(region.rects@, bounds), dx as int, dy as int),
{
    let rects: Vec<LogicalRect> = region_rects_within_bounds(region, bounds);
    proof {
        law_region_pieces_are_the_region(region.rects@, bounds, 0, 0);
        assert forall|i: int| 0 <= i < rects@.len() implies geometry::fits_i32(
            (#[trigger] rects@[i]).x + dx,
        ) && geometry::fits_i32(rects@[i].y + dy) by {
            assert(rects@[i].within(bounds) && rects@[i].is_solid());
        }
    }
    translate_rects(&rects, dx, dy)
}

/// What a window asked to have blurred: its blur region inside its client area, in global
/// coordinates. Nothing without a region; a window of the X server never has one.
pub open spec fn window_effect_rects(
    region: Option<RegionAttributes>,
    client_rect: LogicalRect,
) -> Seq<LogicalRect> {
    match region {
        None => Seq::empty(),
        Some(region) => moved_by(
            region_pieces(
                region.rects@,
                geometry::rect_of(0, 0, client_rect.width as int, client_rect.height as int),
            ),
            client_rect.x as int,
            client_rect.y as int,
        ),
    }
}

pub fn protocol_background_effect_rects_for_window(
    blur_region: &Option<RegionAttributes>,
    client_rect: LogicalRect,
) -> (rects: Vec<LogicalRect>)
    requires
        *blur_region matches Some(region) ==> region.fits() && client_rect.fits(),
    ensures
        rects@ == window_effect_rects(*blur_region, client_rect),
{
    match blur_region {
        None => Vec::new(),
        Some(region) => moved_region_rects(
            region,
            LogicalRect::new(0, 0, client_rect.width, client_rect.height),
            client_rect.x,
            client_rect.y,
        ),
    }
}

/// What a layer surface asked to have blurred: its blur region inside its own extent, in
/// global coordinates. Nothing without a region or without a place on the output.
pub open spec fn layer_effect_rects(
    region: Option<RegionAttributes>,
    layer_geo: Option<LogicalRect>,
    output_loc: LogicalPoint,
) -> Seq<LogicalRect> {
    match (region, layer_geo) {
        (Some(region), Some(geo)) => moved_by(
            region_pieces(
                region.rects@,
                geometry::rect_of(0, 0, geo.width as int, geo.height as int),
            ),
            output_loc.x + geo.x,
            output_loc.y + geo.y,
        ),
        _ => Seq::empty(),
    }
}

/// `geo` on an output at `output_loc` stays within `i32`.
pub open spec fn placed_fits(geo: LogicalRect, output_loc: LogicalPoint) -> bool {
    &&& geometry::fits_i32(output_loc.x + geo.x)
    &&& geometry::fits_i32(output_loc.y + geo.y)
    &&& geometry::fits_i32(output_loc.x + geo.right())
    &&& geometry::fits_i32(output_loc.y + geo.bottom())
}

pub fn protocol_background_effect_rects_for_layer(
    blur_region: &Option<RegionAttributes>,
    layer_geo: Option<LogicalRect>,
    output_loc: LogicalPoint,
) -> (rects: Vec<LogicalRect>)
    requires
        *blur_region matches Some(region) ==> region.fits() && (layer_geo matches Some(geo)
            ==> placed_fits(geo, output_loc)),
    ensures
        rects@ == layer_effect_rects(*blur_region, layer_geo, output_loc),
{
    match (blur_region, layer_geo) {
        (Some(region), Some(geo)) => moved_region_rects(
            region,
            LogicalRect::new(0, 0, geo.width, geo.height),
            output_loc.x + geo.x,
            output_loc.y + geo.y,
        ),
        _ => Vec::new(),
    }
}

/// What a popup asked to have blurred: its blur region inside the extent of its surfaces,
/// moved to where its buffer starts. Nothing without a region or without an extent.
pub open spec fn popup_effect_rects(
    region: Option<RegionAttributes>,
    bbox: LogicalRect,
    buffer_origin: LogicalPoint,
) -> Seq<LogicalRect> {
    match region {
        Some(region) if bbox.is_solid() => moved_by(
            region_pieces(region.rects@, bbox),
            buffer_origin.x as int,
            buffer_origin.y as int,
        ),
        _ => Seq::empty(),
    }
}

pub fn protocol_background_effect_rects_for_popup(
    blur_region: &Option<RegionAttributes>,
    bbox: LogicalRect,
    buffer_origin: LogicalPoint,
) -> (rects: Vec<LogicalRect>)
    requires
        *blur_region matches Some(region) ==> region.fits() && (bbox.is_solid() ==> bbox.fits()
            && placed_fits(bbox, buffer_origin)),
    ensures
        rects@ == popup_effect_rects(*blur_region, bbox, buffer_origin),
{
    match blur_region {
        None => Vec::new(),
        Some(region) => {
            if bbox.width <= 0 || bbox.height <= 0 {
                return Vec::new();
            }
            moved_region_rects(region, bbox, buffer_origin.x, buffer_origin.y)
        },
    }
}

proof fn lemma_last_rect_decides(
    rects: Seq<(RectangleKind, LogicalRect)>,
    px: int,
    py: int,
    k: int,
)
    requires
        0 <= k < rects.len(),
        rects[k].1.covers(px, py),
        forall|j: int| k < j < rects.len() ==> !(#[trigger] rects[j]).1.covers(px, py),
    ensures
        region_covers(rects, px, py) <==> rects[k].0 == RectangleKind::Add,
    decreases rects.len(),
{
    if k < rects.len() - 1 {
        assert(rects.last() == rects[rects.len() - 1]);
        assert(rects.drop_last()[k] == rects[k]);
        assert forall|j: int| k < j < rects.drop_last().len() implies !(
        #[trigger] rects.drop_last()[j]).1.covers(px, py) by {
            assert(rects.drop_last()[j] == rects[j]);
        }
        lemma_last_rect_decides(rects.drop_last(), px, py, k);
    }
}

proof fn lemma_uncovered_points_are_outside(
    rects: Seq<(RectangleKind, LogicalRect)>,
    px: int,
    py: int,
)
    requires
        forall|j: int| 0 <= j < rects.len() ==> !(#[trigger] rects[j]).1.covers(px, py),
    ensures
        !region_covers(rects, px, py),
    decreases rects.len(),
{
    if rects.len() > 0 {
        assert(rects.last() == rects[rects.len() - 1]);
        assert forall|j: int| 0 <= j < rects.drop_last().len() implies !(
        #[trigger] rects.drop_last()[j]).1.covers(px, py) by {
            assert(rects.drop_last()[j] == rects[j]);
        }
        lemma_uncovered_points_are_outside(rects.drop_last(), px, py);
    }
}

/// The last rectangle of a region that covers a point decides whether the point belongs to it:
/// it does if the rectangle is added, and not if it is taken away. The region inside the bounds
/// covers exactly these points, each of them once.
pub proof fn law_the_last_rectangle_decides(
    region: &RegionAttributes,
    bounds: LogicalRect,
    out: Vec<LogicalRect>,
    px: int,
    py: int,
    k: int,
)
    requires
        bounds.fits(),
        region.fits(),
        call_ensures(region_rects_within_bounds, (region, bounds), out),
        0 <= k < region.rects@.len(),
        region.rects@[k].1.covers(px, py),
        forall|j: int|
            k < j < region.rects@.len() ==> !(#[trigger] region.rects@[j]).1.covers(px, py),
    ensures
        (exists|i: int| 0 <= i < out@.len() && (#[trigger] out@[i]).covers(px, py))
            <==> bounds.covers(px, py) && region.rects@[k].0 == RectangleKind::Add,
        geometry::cover_count(out@, px, py) <= 1,
{
    law_region_pieces_are_the_region(region.rects@, bounds, px, py);
    lemma_last_rect_decides(region.rects@, px, py, k);
    geometry::lemma_cover_count_positive(out@, px, py);
}

/// A point that no rectangle of a region covers, or that is outside the bounds, is not covered.
pub proof fn law_points_outside_a_region(
    region: &RegionAttributes,
    bounds: LogicalRect,
    out: Vec<LogicalRect>,
    px: int,
    py: int,
    i: int,
)
    requires
        bounds.fits(),
        region.fits(),
        call_ensures(region_rects_within_bounds, (region, bounds), out),
        !bounds.covers(px, py) || forall|j: int|
            0 <= j < region.rects@.len() ==> !(#[trigger] region.rects@[j]).1.covers(px, py),
        0 <= i < out@.len(),
    ensures
        !out@[i].covers(px, py),
{
    law_region_pieces_are_the_region(region.rects@, bounds, px, py);
    if forall|j: int|
        0 <= j < region.rects@.len() ==> !(#[trigger] region.rects@[j]).1.covers(px, py) {
        lemma_uncovered_points_are_outside(region.rects@, px, py);
    }
    geometry::lemma_cover_count_positive(out@, px, py);
}

proof fn lemma_moved_region(
    rects: Seq<(RectangleKind, LogicalRect)>,
    bounds: LogicalRect,
    dx: int,
    dy: int,
    out: Seq<LogicalRect>,
    px: int,
    py: int,
)
    requires
        bounds.fits(),
        forall|i: int| 0 <= i < rects.len() ==> (#[trigger] rects[i]).1.fits(),
        geometry::fits_i32(bounds.x + dx),
        geometry::fits_i32(bounds.y + dy),
        geometry::fits_i32(bounds.right() + dx),
        geometry::fits_i32(bounds.bottom() + dy),
        out == moved_by(region_pieces(rects, bounds), dx, dy),
    ensures
        (exists|i: int| 0 <= i < out.len() && (#[trigger] out[i]).covers(px + dx, py + dy))
            <==> bounds.covers(px, py) && region_covers(rects, px, py),
{
    let pieces = region_pieces(rects, bounds);
    law_region_pieces_are_the_region(rects, bounds, px, py);
    assert forall|i: int| 0 <= i < pieces.len() implies geometry::fits_i32(
        (#[trigger] pieces[i]).x + dx,
    ) && geometry::fits_i32(pieces[i].y + dy) by {
        assert(pieces[i].within(bounds) && pieces[i].is_solid());
    }
    law_moving_moves_points(pieces, dx, dy, px, py);
    geometry::lemma_cover_count_positive(out, px + dx, py + dy);
}

/// What a window has blurred are the points of its region inside its client's part, counted from
/// the corner of that part.
pub proof fn law_blurred_points_of_windows(
    blur_region: &Option<RegionAttributes>,
    client_rect: LogicalRect,
    rects: Vec<LogicalRect>,
    px: int,
    py: int,
    k: int,
)
    requires
        client_rect.fits(),
        blur_region is Some ==> blur_region->0.fits(),
        call_ensures(
            protocol_background_effect_rects_for_window,
            (blur_region, client_rect),
            rects,
        ),
    ensures
        blur_region is None ==> rects@.len() == 0,
        blur_region is Some && 0 <= k < blur_region->0.rects@.len()
            && blur_region->0.rects@[k].1.covers(px, py) && (forall|j: int|
            k < j < blur_region->0.rects@.len() ==> !(
            #[trigger] blur_region->0.rects@[j]).1.covers(px, py)) ==> ((exists|i: int|
            0 <= i < rects@.len() && (#[trigger] rects@[i]).covers(
                px + client_rect.x,
                py + client_rect.y,
            )) <==> 0 <= px < client_rect.width && 0 <= py < client_rect.height
            && blur_region->0.rects@[k].0 == RectangleKind::Add),
{
    if blur_region is Some && 0 <= k < blur_region->0.rects@.len()
        && blur_region->0.rects@[k].1.covers(px, py) && (forall|j: int|
        k < j < blur_region->0.rects@.len() ==> !(#[trigger] blur_region->0.rects@[j]).1.covers(
            px,
            py,
        )) {
        let bounds = geometry::rect_of(0, 0, client_rect.width as int, client_rect.height as int);
        lemma_moved_region(
            blur_region->0.rects@,
            bounds,
            client_rect.x as int,
            client_rect.y as int,
            rects@,
            px,
            py,
        );
        lemma_last_rect_decides(blur_region->0.rects@, px, py, k);
    }
}

/// What a layer surface has blurred are the points of its region inside its extent, counted from
/// where it is in the layout.
pub proof fn law_blurred_points_of_layers(
    blur_region: &Option<RegionAttributes>,
    layer_geo: Option<LogicalRect>,
    output_loc: LogicalPoint,
    rects: Vec<LogicalRect>,
    px: int,
    py: int,
    k: int,
)
    requires
        blur_region is Some ==> blur_region->0.fits(),
        layer_geo is Some ==> placed_fits(layer_geo->0, output_loc),
        call_ensures(
            protocol_background_effect_rects_for_layer,
            (blur_region, layer_geo, output_loc),
            rects,
        ),
    ensures
        blur_region is None || layer_geo is None ==> rects@.len() == 0,
        blur_region is Some && layer_geo is Some && 0 <= k < blur_region->0.rects@.len()
            && blur_region->0.rects@[k].1.covers(px, py) && (forall|j: int|
            k < j < blur_region->0.rects@.len() ==> !(
            #[trigger] blur_region->0.rects@[j]).1.covers(px, py)) ==> ((exists|i: int|
            0 <= i < rects@.len() && (#[trigger] rects@[i]).covers(
                px + (output_loc.x + layer_geo->0.x),
                py + (output_loc.y + layer_geo->0.y),
            )) <==> 0 <= px < layer_geo->0.width && 0 <= py < layer_geo->0.height
            && blur_region->0.rects@[k].0 == RectangleKind::Add),
{
    if blur_region is Some && layer_geo is Some && 0 <= k < blur_region->0.rects@.len()
        && blur_region->0.rects@[k].1.covers(px, py) && (forall|j: int|
        k < j < blur_region->0.rects@.len() ==> !(#[trigger] blur_region->0.rects@[j]).1.covers(
            px,
            py,
        )) {
        let geo = layer_geo->0;
        let bounds = geometry::rect_of(0, 0, geo.width as int, geo.height as int);
        lemma_moved_region(
            blur_region->0.rects@,
            bounds,
            output_loc.x + geo.x,
            output_loc.y + geo.y,
            rects@,
            px,
            py,
        );
        lemma_last_rect_decides(blur_region->0.rects@, px, py, k);
    }
}

/// What a popup has blurred are the points of its region inside the extent of its surfaces,
/// counted from where its buffer starts.
pub proof fn law_blurred_points_of_popups(
    blur_region: &Option<RegionAttributes>,
    bbox: LogicalRect,
    buffer_origin: LogicalPoint,
    rects: Vec<LogicalRect>,
    px: int,
    py: int,
    k: int,
)
    requires
        blur_region is Some ==> blur_region->0.fits(),
        bbox.is_solid() ==> bbox.fits() && placed_fits(bbox, buffer_origin),
        call_ensures(
            protocol_background_effect_rects_for_popup,
            (blur_region, bbox, buffer_origin),
            rects,
        ),
    ensures
        blur_region is None || !bbox.is_solid() ==> rects@.len() == 0,
        blur_region is Some && bbox.is_solid() && 0 <= k < blur_region->0.rects@.len()
            && blur_region->0.rects@[k].1.covers(px, py) && (forall|j: int|
            k < j < blur_region->0.rects@.len() ==> !(
            #[trigger] blur_region->0.rects@[j]).1.covers(px, py)) ==> ((exists|i: int|
            0 <= i < rects@.len() && (#[trigger] rects@[i]).covers(
                px + buffer_origin.x,
                py + buffer_origin.y,
            )) <==> bbox.covers(px, py) && blur_region->0.rects@[k].0 == RectangleKind::Add),
{
    if blur_region is Some && bbox.is_solid() && 0 <= k < blur_region->0.rects@.len()
        && blur_region->0.rects@[k].1.covers(px, py) && (forall|j: int|
        k < j < blur_region->0.rects@.len() ==> !(#[trigger] blur_region->0.rects@[j]).1.covers(
            px,
            py,
        )) {
        lemma_moved_region(
            blur_region->0.rects@,
            bbox,
            buffer_origin.x as int,
            buffer_origin.y as int,
            rects@,
            px,
            py,
        );
        lemma_last_rect_decides(blur_region->0.rects@, px, py, k);
    }
}

} // verus!
