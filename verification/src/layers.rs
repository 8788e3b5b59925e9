//! Layer surfaces and popups: the order in which they are drawn and where they are.

use crate::clip::ContentClip;
use crate::geometry::{self, LogicalPoint, LogicalRect};
use vstd::prelude::*;

verus! {

/// The layers of an output. Windows are between `Bottom` and `Top`.
#[derive(Clone, Copy, Debug, PartialEq, Eq, Structural)]
pub enum WlrLayer {
    Background,
    Bottom,
    Top,
    Overlay,
}

/// A layer surface of an output.
pub struct LayerEntry<T> {
    pub surface: T,
    pub layer: WlrLayer,
    /// The surface has something to show.
    pub mapped: bool,
}

/// A layer surface has something to show when its client has given it a buffer. Nothing is
/// known of a surface that was never committed.
pub fn layer_surface_is_mapped(has_buffer: Option<bool>) -> (mapped: bool)
    ensures
        mapped == (has_buffer == Some(true)),
{
    match has_buffer {
        Some(has_buffer) => has_buffer,
        None => false,
    }
}

pub open spec fn is_lower(layer: WlrLayer) -> bool {
    layer == WlrLayer::Background || layer == WlrLayer::Bottom
}

/// The mapped surfaces above or below the windows, from front to back: what came last is in
/// front.
pub open spec fn side_of<T>(layers: Seq<LayerEntry<T>>, lower: bool) -> Seq<T>
    decreases layers.len(),
{
    if layers.len() == 0 {
        Seq::empty()
    } else {
        let rest = side_of(layers.drop_last(), lower);
        if layers.last().mapped && is_lower(layers.last().layer) == lower {
            seq![layers.last().surface] + rest
        } else {
            rest
        }
    }
}

/// The mapped surfaces on one layer, from front to back.
pub open spec fn surfaces_on<T>(layers: Seq<LayerEntry<T>>, layer: WlrLayer) -> Seq<T>
    decreases layers.len(),
{
    if layers.len() == 0 {
        Seq::empty()
    } else {
        let rest = surfaces_on(layers.drop_last(), layer);
        if layers.last().mapped && layers.last().layer == layer {
            seq![layers.last().surface] + rest
        } else {
            rest
        }
    }
}

/// The mapped surfaces above the windows and those below them, each from front to back.
pub fn layer_surfaces_for_output<T>(layers: Vec<LayerEntry<T>>) -> (r: (Vec<T>, Vec<T>))
    ensures
        r.0@ == side_of(layers@, false),
        r.1@ == side_of(layers@, true),
{
    let ghost all = layers@;
    let mut layers: Vec<LayerEntry<T>> = layers;
    let mut upper: Vec<T> = Vec::new();
    let mut lower: Vec<T> = Vec::new();
    while layers.len() > 0
        invariant
            upper@ + side_of(layers@, false) =~= side_of(all, false),
            lower@ + side_of(layers@, true) =~= side_of(all, true),
        decreases layers@.len(),
    {
        match layers.pop() {
            Some(entry) => {
                if entry.mapped {
                    if matches!(entry.layer, WlrLayer::Background | WlrLayer::Bottom) {
                        lower.push(entry.surface);
                    } else {
                        upper.push(entry.surface);
                    }
                }
            },
            None => {},
        }
    }
    (upper, lower)
}

struct ByLayer<T> {
    overlay: Vec<T>,
    top: Vec<T>,
    bottom: Vec<T>,
    background: Vec<T>,
}

fn sort_by_layer<T>(layers: Vec<LayerEntry<T>>) -> (sorted: ByLayer<T>)
    ensures
        sorted.overlay@ == surfaces_on(layers@, WlrLayer::Overlay),
        sorted.top@ == surfaces_on(layers@, WlrLayer::Top),
        sorted.bottom@ == surfaces_on(layers@, WlrLayer::Bottom),
        sorted.background@ == surfaces_on(layers@, WlrLayer::Background),
{
    let ghost all = layers@;
    let mut layers: Vec<LayerEntry<T>> = layers;
    let mut overlay: Vec<T> = Vec::new();
    let mut top: Vec<T> = Vec::new();
    let mut bottom: Vec<T> = Vec::new();
    let mut background: Vec<T> = Vec::new();
    while layers.len() > 0
        invariant
            overlay@ + surfaces_on(layers@, WlrLayer::Overlay) =~= surfaces_on(
                all,
                WlrLayer::Overlay,
            ),
            top@ + surfaces_on(layers@, WlrLayer::Top) =~= surfaces_on(all, WlrLayer::Top),
            bottom@ + surfaces_on(layers@, WlrLayer::Bottom) =~= surfaces_on(
                all,
                WlrLayer::Bottom,
            ),
            background@ + surfaces_on(layers@, WlrLayer::Background) =~= surfaces_on(
                all,
                WlrLayer::Background,
            ),
        decreases layers@.len(),
    {
        match layers.pop() {
            Some(entry) => {
                if entry.mapped {
                    match entry.layer {
                        WlrLayer::Overlay => {
                            overlay.push(entry.surface);
                        },
                        WlrLayer::Top => {
                            top.push(entry.surface);
                        },
                        WlrLayer::Bottom => {
                            bottom.push(entry.surface);
                        },
                        WlrLayer::Background => {
                            background.push(entry.surface);
                        },
                    }
                }
            },
            None => {},
        }
    }
    ByLayer { overlay, top, bottom, background }
}

/// The layer surfaces in the order in which their popups are drawn when these are drawn
/// apart from them. A popup of a surface below the windows is then in front of the windows
/// too. Above a fullscreen window only the overlay remains.
pub fn layer_surfaces_for_popup_pass<T>(layers: Vec<LayerEntry<T>>, overlay_only: bool) -> (out:
    Vec<T>)
    ensures
        out@ == (if overlay_only {
            surfaces_on(layers@, WlrLayer::Overlay)
        } else {
            surfaces_on(layers@, WlrLayer::Overlay) + surfaces_on(layers@, WlrLayer::Top)
                + surfaces_on(layers@, WlrLayer::Bottom) + surfaces_on(
                layers@,
                WlrLayer::Background,
            )
        }),
{
    let mut sorted: ByLayer<T> = sort_by_layer(layers);
    let mut out: Vec<T> = sorted.overlay;
    if !overlay_only {
        out.append(&mut sorted.top);
        out.append(&mut sorted.bottom);
        out.append(&mut sorted.background);
    }
    out
}

/// The layer surfaces that are drawn in front of the windows, from front to back. A
/// fullscreen window is in front of all of them but the overlay.
pub fn upper_layer_surfaces<T>(layers: Vec<LayerEntry<T>>, overlay_only: bool) -> (out: Vec<T>)
    ensures
        out@ == (if overlay_only {
            surfaces_on(layers@, WlrLayer::Overlay)
        } else {
            surfaces_on(layers@, WlrLayer::Overlay) + surfaces_on(layers@, WlrLayer::Top)
        }),
{
    let mut sorted: ByLayer<T> = sort_by_layer(layers);
    let mut out: Vec<T> = sorted.overlay;
    if !overlay_only {
        out.append(&mut sorted.top);
    }
    out
}

/// Every mapped layer surface is drawn on exactly one side of the windows.
pub proof fn law_layers_are_on_one_side<T>(layers: Seq<LayerEntry<T>>)
    ensures
        side_of(layers, false).len() + side_of(layers, true).len() == layers.filter(
            |entry: LayerEntry<T>| entry.mapped,
        ).len(),
    decreases layers.len(),
{
    reveal(Seq::filter);
    if layers.len() > 0 {
        law_layers_are_on_one_side(layers.drop_last());
    }
}

pub open spec fn joined<E>(lists: Seq<Vec<E>>) -> Seq<E>
    decreases lists.len(),
{
    if lists.len() == 0 {
        Seq::empty()
    } else {
        joined(lists.drop_last()) + lists.last()@
    }
}

fn join<E>(lists: Vec<Vec<E>>) -> (out: Vec<E>)
    ensures
        out@ == joined(lists@),
{
    let ghost all = lists@;
    let mut out: Vec<E> = Vec::new();
    assert(all.take(0) =~= Seq::<Vec<E>>::empty());
    for list in it: lists
        invariant
            it.seq() == all,
            out@ =~= joined(all.take(it.index() as int)),
    {
        assert(all.take(it.index() + 1).drop_last() =~= all.take(it.index() as int));
        let mut list: Vec<E> = list;
        out.append(&mut list);
    }
    assert(all.take(all.len() as int) =~= all);
    out
}

/// The elements of the layer surfaces above the windows and of those below them.
pub fn layer_elements_for_output<E>(upper: Vec<Vec<E>>, lower: Vec<Vec<E>>) -> (r: (
    Vec<E>,
    Vec<E>,
))
    ensures
        r.0@ == joined(upper@),
        r.1@ == joined(lower@),
{
    (join(upper), join(lower))
}

/// Where the contents of a surface start, so that its geometry is at `geometry_loc`, within
/// the range of machine integers; `None` for a layer surface that has not been placed.
pub fn layer_surface_origin(
    geometry_loc: Option<LogicalPoint>,
    surface_loc: LogicalPoint,
) -> (origin: Option<LogicalPoint>)
    ensures
        origin is Some <==> geometry_loc is Some,
        origin is Some ==> origin->0.x == geometry::saturate_i32(
            geometry_loc->0.x - surface_loc.x,
        ) && origin->0.y == geometry::saturate_i32(geometry_loc->0.y - surface_loc.y),
{
    match geometry_loc {
        Some(loc) => Some(
            LogicalPoint {
                x: geometry::saturating_sub_i32(loc.x, surface_loc.x),
                y: geometry::saturating_sub_i32(loc.y, surface_loc.y),
            },
        ),
        None => None,
    }
}

/// A popup: where it is relative to what it belongs to, and its geometry.
#[derive(Clone, Copy, Debug, PartialEq, Eq, Structural)]
pub struct PopupGeometry {
    pub offset: LogicalPoint,
    pub geometry: LogicalRect,
}

/// Where a popup is drawn.
#[derive(Clone, Copy, Debug, PartialEq, Eq, Structural)]
pub struct PopupPlacement {
    /// The area of the popup.
    pub rect: LogicalRect,
    /// Where its contents start, which may be outside of its area.
    pub buffer_origin: LogicalPoint,
}

impl PopupGeometry {
    pub open spec fn placed_at(self, base_x: int, base_y: int) -> PopupPlacement {
        PopupPlacement {
            rect: geometry::rect_of(
                base_x + self.offset.x,
                base_y + self.offset.y,
                self.geometry.width as int,
                self.geometry.height as int,
            ),
            buffer_origin: LogicalPoint {
                x: geometry::saturate_i32(base_x + self.offset.x - self.geometry.x) as i32,
                y: geometry::saturate_i32(base_y + self.offset.y - self.geometry.y) as i32,
            },
        }
    }

    /// The area of the popup is in the range of machine integers.
    pub open spec fn area_fits_at(self, base_x: int, base_y: int) -> bool {
        &&& geometry::fits_i32(base_x)
        &&& geometry::fits_i32(base_y)
        &&& geometry::fits_i32(base_x + self.offset.x)
        &&& geometry::fits_i32(base_y + self.offset.y)
    }

    /// So is the place where its contents start.
    pub open spec fn fits_at(self, base_x: int, base_y: int) -> bool {
        &&& self.area_fits_at(base_x, base_y)
        &&& geometry::fits_i32(base_x + self.offset.x - self.geometry.x)
        &&& geometry::fits_i32(base_y + self.offset.y - self.geometry.y)
    }
}

pub open spec fn all_placed(popups: Seq<PopupGeometry>, base_x: int, base_y: int) -> Seq<
    PopupPlacement,
> {
    popups.map_values(|popup: PopupGeometry| popup.placed_at(base_x, base_y))
}

pub open spec fn all_areas_fit_at(popups: Seq<PopupGeometry>, base_x: int, base_y: int) -> bool {
    forall|i: int| 0 <= i < popups.len() ==> (#[trigger] popups[i]).area_fits_at(base_x, base_y)
}

pub open spec fn all_fit_at(popups: Seq<PopupGeometry>, base_x: int, base_y: int) -> bool {
    forall|i: int| 0 <= i < popups.len() ==> (#[trigger] popups[i]).fits_at(base_x, base_y)
}

fn place_popups(popups: &[PopupGeometry], base: LogicalPoint) -> (out: Vec<PopupPlacement>)
    requires
        all_areas_fit_at(popups@, base.x as int, base.y as int),
    ensures
        out@ == all_placed(popups@, base.x as int, base.y as int),
{
    let mut out: Vec<PopupPlacement> = Vec::new();
    let mut index: usize = 0;
    while index < popups.len()
        invariant
            index <= popups@.len(),
            all_areas_fit_at(popups@, base.x as int, base.y as int),
            out@ =~= all_placed(popups@.take(index as int), base.x as int, base.y as int),
        decreases popups@.len() - index,
    {
        let popup: PopupGeometry = popups[index];
        assert(popups@[index as int].area_fits_at(base.x as int, base.y as int));
        let x: i32 = base.x + popup.offset.x;
        let y: i32 = base.y + popup.offset.y;
        out.push(
            PopupPlacement {
                rect: LogicalRect::new(x, y, popup.geometry.width, popup.geometry.height),
                buffer_origin: LogicalPoint {
                    x: geometry::saturating_sub_i32(x, popup.geometry.x),
                    y: geometry::saturating_sub_i32(y, popup.geometry.y),
                },
            },
        );
        index += 1;
    }
    assert(popups@.take(popups@.len() as int) =~= popups@);
    out
}

/// The popups of a layer surface in coordinates of its output; `origin` is where the
/// contents of the surface start. A surface that has not been placed shows none.
pub fn layer_surface_popup_groups(
    origin: Option<LogicalPoint>,
    popups: &[PopupGeometry],
) -> (out: Vec<PopupPlacement>)
    requires
        origin is Some ==> all_areas_fit_at(popups@, origin->0.x as int, origin->0.y as int),
    ensures
        out@ == (match origin {
            Some(origin) => all_placed(popups@, origin.x as int, origin.y as int),
            None => Seq::empty(),
        }),
{
    match origin {
        Some(origin) => place_popups(popups, origin),
        None => Vec::new(),
    }
}

/// The popups of a window in the layout of all outputs; `location` is where the window is
/// drawn on the output. Windows of the X server have none.
pub fn window_popup_groups(
    is_wayland: bool,
    output_loc: LogicalPoint,
    location: LogicalPoint,
    popups: &[PopupGeometry],
) -> (out: Vec<PopupPlacement>)
    requires
        is_wayland ==> all_fit_at(popups@, output_loc.x + location.x, output_loc.y + location.y),
    ensures
        out@ == (if is_wayland {
            all_placed(popups@, output_loc.x + location.x, output_loc.y + location.y)
        } else {
            Seq::empty()
        }),
{
    if !is_wayland || popups.len() == 0 {
        assert(all_placed(
            Seq::<PopupGeometry>::empty(),
            output_loc.x + location.x,
            output_loc.y + location.y,
        ) =~= Seq::empty());
        return Vec::new();
    }
    assert(popups@[0].fits_at(output_loc.x + location.x, output_loc.y + location.y));
    assert(all_areas_fit_at(popups@, output_loc.x + location.x, output_loc.y + location.y)) by {
        assert forall|i: int| 0 <= i < popups@.len() implies (#[trigger] popups@[i]).area_fits_at(
            output_loc.x + location.x,
            output_loc.y + location.y,
        ) by {
            assert(popups@[i].fits_at(output_loc.x + location.x, output_loc.y + location.y));
        }
    }
    place_popups(
        popups,
        LogicalPoint { x: output_loc.x + location.x, y: output_loc.y + location.y },
    )
}

/// The geometry of a popup starts at its position within the contents of the popup.
pub proof fn law_popup_geometry_is_within_its_contents(
    popup: PopupGeometry,
    base_x: int,
    base_y: int,
)
    requires
        popup.fits_at(base_x, base_y),
    ensures
        ({
            let placed = popup.placed_at(base_x, base_y);
            placed.rect.x - placed.buffer_origin.x == popup.geometry.x && placed.rect.y
                - placed.buffer_origin.y == popup.geometry.y
        }),
{
}

/// How far the contents of a popup are from those of its window, within the range of machine
/// integers.
pub fn popup_offset(
    window_geometry: LogicalPoint,
    offset: LogicalPoint,
    popup_geometry: LogicalPoint,
) -> (r: LogicalPoint)
    ensures
        r.x == geometry::saturate_i32(
            geometry::saturate_i32(window_geometry.x + offset.x) - popup_geometry.x,
        ),
        r.y == geometry::saturate_i32(
            geometry::saturate_i32(window_geometry.y + offset.y) - popup_geometry.y,
        ),
{
    LogicalPoint {
        x: geometry::saturating_sub_i32(
            geometry::saturating_add_i32(window_geometry.x, offset.x),
            popup_geometry.x,
        ),
        y: geometry::saturating_sub_i32(
            geometry::saturating_add_i32(window_geometry.y, offset.y),
            popup_geometry.y,
        ),
    }
}

/// The smallest area that holds the window with its decoration and all of its surfaces. The
/// edges stay in the range of machine integers.
pub open spec fn window_extent(root: LogicalRect, surface: LogicalRect) -> LogicalRect {
    let left = geometry::spec_min(root.x as int, surface.x as int);
    let top = geometry::spec_min(root.y as int, surface.y as int);
    let right = geometry::spec_max(
        geometry::saturate_i32(root.right()),
        geometry::saturate_i32(surface.right()),
    );
    let bottom = geometry::spec_max(
        geometry::saturate_i32(root.bottom()),
        geometry::saturate_i32(surface.bottom()),
    );
    geometry::rect_of(left, top, right - left, bottom - top)
}

pub open spec fn extent_fits(root: LogicalRect, surface: LogicalRect) -> bool {
    &&& geometry::fits_i32(
        geometry::spec_max(
            geometry::saturate_i32(root.right()),
            geometry::saturate_i32(surface.right()),
        ) - geometry::spec_min(root.x as int, surface.x as int),
    )
    &&& geometry::fits_i32(
        geometry::spec_max(
            geometry::saturate_i32(root.bottom()),
            geometry::saturate_i32(surface.bottom()),
        ) - geometry::spec_min(root.y as int, surface.y as int),
    )
}

pub open spec fn clips_surface(content_clip: Option<ContentClip>) -> bool {
    content_clip is Some && content_clip->0.clips_surface
}

/// The area that a picture of a window has to cover: the window itself where its surfaces
/// are clipped, and otherwise the surfaces too, wherever they reach.
pub fn snapshot_bounds(
    location: LogicalPoint,
    bbox: LogicalRect,
    root_rect: LogicalRect,
    content_clip: Option<ContentClip>,
) -> (bounds: LogicalRect)
    requires
        !clips_surface(content_clip) ==> {
            &&& geometry::fits_i32(location.x + bbox.x)
            &&& geometry::fits_i32(location.y + bbox.y)
            &&& extent_fits(
                root_rect,
                geometry::rect_of(
                    location.x + bbox.x,
                    location.y + bbox.y,
                    bbox.width as int,
                    bbox.height as int,
                ),
            )
        },
    ensures
        bounds == (if clips_surface(content_clip) {
            root_rect
        } else {
            window_extent(
                root_rect,
                geometry::rect_of(
                    location.x + bbox.x,
                    location.y + bbox.y,
                    bbox.width as int,
                    bbox.height as int,
                ),
            )
        }),
{
    match content_clip {
        Some(clip) => {
            if clip.clips_surface {
                return root_rect;
            }
        },
        None => {},
    }
    let surface: LogicalRect = bbox.translated(location.x, location.y);
    let left: i32 = geometry::min_i32(root_rect.x, surface.x);
    let top: i32 = geometry::min_i32(root_rect.y, surface.y);
    let right: i32 = geometry::max_i32(
        geometry::saturating_add_i32(root_rect.x, root_rect.width),
        geometry::saturating_add_i32(surface.x, surface.width),
    );
    let bottom: i32 = geometry::max_i32(
        geometry::saturating_add_i32(root_rect.y, root_rect.height),
        geometry::saturating_add_i32(surface.y, surface.height),
    );
    LogicalRect::new(left, top, right - left, bottom - top)
}

/// The area of a picture holds the whole window, with its decoration and its surfaces.
pub proof fn law_snapshot_holds_the_window(
    root: LogicalRect,
    surface: LogicalRect,
    px: int,
    py: int,
)
    requires
        root.fits(),
        surface.fits(),
        extent_fits(root, surface),
        root.covers(px, py) || surface.covers(px, py),
    ensures
        window_extent(root, surface).covers(px, py),
{
}

/// A layer surface is mapped exactly if its client has given it a buffer.
pub proof fn law_mapped_layers(has_buffer: Option<bool>, mapped: bool)
    requires
        call_ensures(layer_surface_is_mapped, (has_buffer,), mapped),
    ensures
        mapped ==> has_buffer == Some(true),
        has_buffer == Some(true) ==> mapped,
{
}

/// One more mapped layer surface is in front of those on its side of the windows, and changes
/// nothing on the other side: `Top` and `Overlay` are above the windows, `Bottom` and
/// `Background` below. One that is not mapped is on no side.
pub proof fn law_new_layers_are_in_front<T>(
    layers: Vec<LayerEntry<T>>,
    longer: Vec<LayerEntry<T>>,
    entry: LayerEntry<T>,
    r: (Vec<T>, Vec<T>),
    longer_r: (Vec<T>, Vec<T>),
)
    requires
        call_ensures(layer_surfaces_for_output::<T>, (layers,), r),
        call_ensures(layer_surfaces_for_output::<T>, (longer,), longer_r),
        longer@ == layers@.push(entry),
    ensures
        layers@.len() == 0 ==> r.0@.len() == 0 && r.1@.len() == 0,
        !entry.mapped ==> longer_r.0@ == r.0@ && longer_r.1@ == r.1@,
        entry.mapped && (entry.layer == WlrLayer::Top || entry.layer == WlrLayer::Overlay)
            ==> longer_r.0@ == seq![entry.surface] + r.0@ && longer_r.1@ == r.1@,
        entry.mapped && (entry.layer == WlrLayer::Bottom || entry.layer == WlrLayer::Background)
            ==> longer_r.1@ == seq![entry.surface] + r.1@ && longer_r.0@ == r.0@,
{
    assert(longer@.drop_last() =~= layers@);
}

/// In the pass over popups one more mapped layer surface comes before those of its own layer,
/// after those of the layers above it and before those of the layers below. Above a fullscreen
/// window only the overlay takes part.
pub proof fn law_popup_pass_follows_the_layers<T>(
    layers: Vec<LayerEntry<T>>,
    longer: Vec<LayerEntry<T>>,
    entry: LayerEntry<T>,
    overlay_only: bool,
    out: Vec<T>,
    longer_out: Vec<T>,
    over: Vec<T>,
    at: int,
)
    requires
        call_ensures(layer_surfaces_for_popup_pass::<T>, (layers, overlay_only), out),
        call_ensures(layer_surfaces_for_popup_pass::<T>, (longer, overlay_only), longer_out),
        call_ensures(layer_surfaces_for_popup_pass::<T>, (layers, true), over),
        longer@ == layers@.push(entry),
    ensures
        !entry.mapped ==> longer_out@ == out@,
        overlay_only && entry.layer != WlrLayer::Overlay ==> longer_out@ == out@,
        entry.mapped && entry.layer == WlrLayer::Overlay ==> longer_out@ == seq![entry.surface]
            + out@,
        entry.mapped && entry.layer == WlrLayer::Top && !overlay_only ==> longer_out@ == over@
            + seq![entry.surface] + out@.skip(over@.len() as int),
        !overlay_only && entry.mapped ==> longer_out@.len() == out@.len() + 1
            && longer_out@.contains(entry.surface),
        layers@.len() == 0 ==> out@.len() == 0,
{
    assert(longer@.drop_last() =~= layers@);
    let o = surfaces_on(layers@, WlrLayer::Overlay);
    let t = surfaces_on(layers@, WlrLayer::Top);
    let m = surfaces_on(layers@, WlrLayer::Bottom);
    let g = surfaces_on(layers@, WlrLayer::Background);
    let e = seq![entry.surface];
    if entry.mapped && !overlay_only {
        assert(e[0] == entry.surface);
        if entry.layer == WlrLayer::Overlay {
            assert(longer_out@ =~= e + out@);
            assert(longer_out@[0] == entry.surface);
        } else if entry.layer == WlrLayer::Top {
            assert(out@.skip(o.len() as int) =~= t + m + g);
            assert(longer_out@ =~= o + e + (t + m + g));
            assert(longer_out@[o.len() as int] == entry.surface);
        } else if entry.layer == WlrLayer::Bottom {
            assert(longer_out@[(o.len() + t.len()) as int] == entry.surface);
        } else {
            assert(longer_out@[(o.len() + t.len() + m.len()) as int] == entry.surface);
        }
    }
}

/// In front of the windows are the overlay and then the top layer; in front of a fullscreen
/// window only the overlay is. A layer below the windows is never among them.
pub proof fn law_layers_in_front_of_the_windows<T>(
    layers: Vec<LayerEntry<T>>,
    longer: Vec<LayerEntry<T>>,
    entry: LayerEntry<T>,
    overlay_only: bool,
    out: Vec<T>,
    longer_out: Vec<T>,
    over: Vec<T>,
)
    requires
        call_ensures(upper_layer_surfaces::<T>, (layers, overlay_only), out),
        call_ensures(upper_layer_surfaces::<T>, (longer, overlay_only), longer_out),
        call_ensures(upper_layer_surfaces::<T>, (layers, true), over),
        longer@ == layers@.push(entry),
    ensures
        layers@.len() == 0 ==> out@.len() == 0,
        !entry.mapped || entry.layer == WlrLayer::Bottom || entry.layer == WlrLayer::Background
            ==> longer_out@ == out@,
        entry.mapped && entry.layer == WlrLayer::Overlay ==> longer_out@ == seq![entry.surface]
            + out@,
        entry.mapped && entry.layer == WlrLayer::Top && overlay_only ==> longer_out@ == out@,
        entry.mapped && entry.layer == WlrLayer::Top && !overlay_only ==> longer_out@ == over@
            + seq![entry.surface] + out@.skip(over@.len() as int),
{
    assert(longer@.drop_last() =~= layers@);
    let o = surfaces_on(layers@, WlrLayer::Overlay);
    let t = surfaces_on(layers@, WlrLayer::Top);
    let e = seq![entry.surface];
    if entry.mapped && !overlay_only {
        if entry.layer == WlrLayer::Overlay {
            assert(longer_out@ =~= e + out@);
        } else if entry.layer == WlrLayer::Top {
            assert(out@.skip(o.len() as int) =~= t);
            assert(longer_out@ =~= o + e + t);
        }
    }
}

/// The elements of layer surfaces follow each other, and the two sides stay apart.
pub proof fn law_layer_elements_follow_each_other<E>(
    upper: Vec<Vec<E>>,
    longer: Vec<Vec<E>>,
    list: Vec<E>,
    lower: Vec<Vec<E>>,
    r: (Vec<E>, Vec<E>),
    longer_r: (Vec<E>, Vec<E>),
    swapped: (Vec<E>, Vec<E>),
)
    requires
        call_ensures(layer_elements_for_output::<E>, (upper, lower), r),
        call_ensures(layer_elements_for_output::<E>, (longer, lower), longer_r),
        call_ensures(layer_elements_for_output::<E>, (lower, upper), swapped),
        longer@ == upper@.push(list),
    ensures
        upper@.len() == 0 ==> r.0@.len() == 0,
        longer_r.0@ == r.0@ + list@,
        longer_r.1@ == r.1@,
        swapped.0@ == r.1@ && swapped.1@ == r.0@,
{
    assert(longer@.drop_last() =~= upper@);
}

/// Where the contents of a surface start and where its geometry is differ by where the geometry
/// starts within the contents. A surface that has not been placed starts nowhere.
pub proof fn law_origins_of_layers(
    geometry_loc: Option<LogicalPoint>,
    surface_loc: LogicalPoint,
    origin: Option<LogicalPoint>,
)
    requires
        call_ensures(layer_surface_origin, (geometry_loc, surface_loc), origin),
    ensures
        geometry_loc is None <==> origin is None,
        geometry_loc is Some && geometry::fits_i32(geometry_loc->0.x - surface_loc.x)
            ==> origin->0.x + surface_loc.x == geometry_loc->0.x,
        geometry_loc is Some && geometry::fits_i32(geometry_loc->0.y - surface_loc.y)
            ==> origin->0.y + surface_loc.y == geometry_loc->0.y,
{
}

/// Popups of a layer surface stand at their offset from where its contents start, in their order
/// and with their own size; a surface without a place has none.
pub proof fn law_popups_of_layers(
    origin: Option<LogicalPoint>,
    popups: &[PopupGeometry],
    out: Vec<PopupPlacement>,
    i: int,
)
    requires
        origin is Some ==> all_fit_at(popups@, origin->0.x as int, origin->0.y as int),
        call_ensures(layer_surface_popup_groups, (origin, popups), out),
    ensures
        origin is None ==> out@.len() == 0,
        origin is Some ==> out@.len() == popups@.len(),
        origin is Some && 0 <= i < popups@.len() ==> {
            &&& out@[i].rect.x == origin->0.x + popups@[i].offset.x
            &&& out@[i].rect.y == origin->0.y + popups@[i].offset.y
            &&& out@[i].rect.width == popups@[i].geometry.width
            &&& out@[i].rect.height == popups@[i].geometry.height
            &&& out@[i].buffer_origin.x + popups@[i].geometry.x == out@[i].rect.x
            &&& out@[i].buffer_origin.y + popups@[i].geometry.y == out@[i].rect.y
        },
{
    if origin is Some && 0 <= i < popups@.len() {
        assert(popups@[i].fits_at(origin->0.x as int, origin->0.y as int));
    }
}

/// Popups of a window stand at their offset from where the window is in the layout, in their
/// order and with their own size; a window of the X server has none.
pub proof fn law_popups_of_windows(
    is_wayland: bool,
    output_loc: LogicalPoint,
    location: LogicalPoint,
    popups: &[PopupGeometry],
    out: Vec<PopupPlacement>,
    i: int,
)
    requires
        is_wayland ==> all_fit_at(popups@, output_loc.x + location.x, output_loc.y + location.y),
        call_ensures(window_popup_groups, (is_wayland, output_loc, location, popups), out),
    ensures
        !is_wayland ==> out@.len() == 0,
        is_wayland ==> out@.len() == popups@.len(),
        is_wayland && 0 <= i < popups@.len() ==> {
            &&& out@[i].rect.x == output_loc.x + location.x + popups@[i].offset.x
            &&& out@[i].rect.y == output_loc.y + location.y + popups@[i].offset.y
            &&& out@[i].rect.width == popups@[i].geometry.width
            &&& out@[i].rect.height == popups@[i].geometry.height
            &&& out@[i].buffer_origin.x + popups@[i].geometry.x == out@[i].rect.x
            &&& out@[i].buffer_origin.y + popups@[i].geometry.y == out@[i].rect.y
        },
{
    if is_wayland && 0 <= i < popups@.len() {
        assert(popups@[i].fits_at(output_loc.x + location.x, output_loc.y + location.y));
    }
}

/// The contents of a popup are its offset away from those of the window, counted from where the
/// geometry of each starts.
pub proof fn law_offsets_of_popups(
    window_geometry: LogicalPoint,
    offset: LogicalPoint,
    popup_geometry: LogicalPoint,
    r: LogicalPoint,
)
    requires
        call_ensures(popup_offset, (window_geometry, offset, popup_geometry), r),
    ensures
        geometry::fits_i32(window_geometry.x + offset.x) && geometry::fits_i32(
            window_geometry.x + offset.x - popup_geometry.x,
        ) ==> r.x + popup_geometry.x == window_geometry.x + offset.x,
        geometry::fits_i32(window_geometry.y + offset.y) && geometry::fits_i32(
            window_geometry.y + offset.y - popup_geometry.y,
        ) ==> r.y + popup_geometry.y == window_geometry.y + offset.y,
{
}

/// A picture of a window covers its decoration and, where the surfaces are not clipped, every
/// surface wherever it reaches; it is no larger than it has to be.
pub proof fn law_bounds_of_snapshots(
    location: LogicalPoint,
    bbox: LogicalRect,
    root_rect: LogicalRect,
    content_clip: Option<ContentClip>,
    bounds: LogicalRect,
    px: int,
    py: int,
)
    requires
        call_ensures(snapshot_bounds, (location, bbox, root_rect, content_clip), bounds),
        geometry::fits_i32(location.x + bbox.x),
        geometry::fits_i32(location.y + bbox.y),
        geometry::fits_i32(location.x + bbox.right()),
        geometry::fits_i32(location.y + bbox.bottom()),
        root_rect.fits(),
        extent_fits(
            root_rect,
            geometry::rect_of(
                location.x + bbox.x,
                location.y + bbox.y,
                bbox.width as int,
                bbox.height as int,
            ),
        ),
    ensures
        content_clip is Some && content_clip->0.clips_surface ==> bounds == root_rect,
        root_rect.covers(px, py) ==> bounds.covers(px, py),
        !(content_clip is Some && content_clip->0.clips_surface) ==> {
            &&& bbox.covers(px - location.x, py - location.y) ==> bounds.covers(px, py)
            &&& bounds.x == root_rect.x || bounds.x == location.x + bbox.x
            &&& bounds.y == root_rect.y || bounds.y == location.y + bbox.y
            &&& bounds.right() == root_rect.right() || bounds.right() == location.x + bbox.right()
            &&& bounds.bottom() == root_rect.bottom() || bounds.bottom() == location.y
                + bbox.bottom()
        },
{
}

} // verus!
