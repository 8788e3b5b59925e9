//! Which surfaces of a window are clipped by its decoration.

use crate::geometry::LogicalRect;
use crate::scene::{self, TtyElementKind, TtyRenderElement};
use crate::visual::RectSnapMode;
use vstd::prelude::*;

verus! {

/// Where the content of a window is placed in its decoration.
#[derive(Clone, Copy, Debug, PartialEq, Eq, Structural)]
pub struct ContentClip {
    pub rect: LogicalRect,
    /// The decoration crops the surfaces of the client as well.
    pub clips_surface: bool,
    pub snap_mode: RectSnapMode,
}

/// What the choice of clipped surfaces needs to know of one of them: whether it is the
/// root surface of the window, and its size in physical pixels.
#[derive(Clone, Copy, Debug, PartialEq, Eq, Structural)]
pub struct SurfaceElementInfo {
    pub is_root: bool,
    pub width: i32,
    pub height: i32,
}

/// The protocol that a window speaks.
#[derive(Clone, Copy, Debug, PartialEq, Eq, Structural)]
pub enum WindowSurfaceKind {
    Wayland,
    X11,
}

pub enum WindowClipElement<E> {
    Clipped(E),
    Raw(E),
}

pub open spec fn abs(value: int) -> int {
    if value < 0 {
        -value
    } else {
        value
    }
}

/// How far the size of a surface is from the size the decoration gives the content.
pub open spec fn size_distance(info: SurfaceElementInfo, geometry: LogicalRect) -> int {
    abs(info.width - geometry.width) + abs(info.height - geometry.height)
}

/// No surface is nearer in size to the content area.
pub open spec fn is_nearest(
    infos: Seq<SurfaceElementInfo>,
    geometry: LogicalRect,
    i: int,
) -> bool {
    forall|j: int|
        0 <= j < infos.len() ==> size_distance(infos[i], geometry) <= size_distance(
            #[trigger] infos[j],
            geometry,
        )
}

/// The surface at `i` is clipped. Under Wayland that is the root surface: other surfaces of
/// the window may reach beyond it on purpose. Under X11, where the root is not known, it is
/// every surface whose size comes nearest to the content area.
pub open spec fn is_clipped(
    infos: Seq<SurfaceElementInfo>,
    kind: WindowSurfaceKind,
    clip: Option<ContentClip>,
    bypass_clip: bool,
    geometry: Option<LogicalRect>,
    i: int,
) -> bool {
    &&& clip is Some
    &&& clip->0.clips_surface
    &&& !bypass_clip
    &&& match kind {
        WindowSurfaceKind::Wayland => infos[i].is_root,
        WindowSurfaceKind::X11 => geometry is Some && is_nearest(infos, geometry->0, i),
    }
}

fn distance(info: SurfaceElementInfo, geometry: LogicalRect) -> (d: i64)
    ensures
        d == size_distance(info, geometry),
{
    let dw: i64 = info.width as i64 - geometry.width as i64;
    let dh: i64 = info.height as i64 - geometry.height as i64;
    (if dw < 0 {
        -dw
    } else {
        dw
    }) + (if dh < 0 {
        -dh
    } else {
        dh
    })
}

/// The smallest distance of any surface from the content area.
fn best_distance(infos: &[SurfaceElementInfo], geometry: LogicalRect) -> (best: Option<i64>)
    ensures
        best is None <==> infos@.len() == 0,
        best matches Some(best) ==> (forall|j: int|
            0 <= j < infos@.len() ==> best <= size_distance(#[trigger] infos@[j], geometry)) && (
        exists|j: int|
            0 <= j < infos@.len() && best == size_distance(#[trigger] infos@[j], geometry)),
{
    if infos.len() == 0 {
        return None;
    }
    let mut best: i64 = distance(infos[0], geometry);
    assert(best == size_distance(infos@[0], geometry));
    let mut index: usize = 1;
    while index < infos.len()
        invariant
            1 <= index <= infos@.len(),
            forall|j: int| 0 <= j < index ==> best <= size_distance(#[trigger] infos@[j], geometry),
            exists|j: int|
                0 <= j < infos@.len() && best == size_distance(#[trigger] infos@[j], geometry),
        decreases infos@.len() - index,
    {
        let d: i64 = distance(infos[index], geometry);
        if d < best {
            best = d;
            assert(best == size_distance(infos@[index as int], geometry));
        }
        index += 1;
    }
    Some(best)
}

pub open spec fn marked<E>(element: E, clipped: bool) -> WindowClipElement<E> {
    if clipped {
        WindowClipElement::Clipped(element)
    } else {
        WindowClipElement::Raw(element)
    }
}

/// Marks the surfaces of a window that are clipped; `infos` describes them one by one.
pub fn clipped_surface_elements<E>(
    elements: Vec<E>,
    infos: &[SurfaceElementInfo],
    kind: WindowSurfaceKind,
    clip: Option<ContentClip>,
    bypass_clip: bool,
    geometry: Option<LogicalRect>,
) -> (out: Vec<WindowClipElement<E>>)
    requires
        infos@.len() == elements@.len(),
    ensures
        out@ == Seq::new(
            elements@.len(),
            |i: int|
                marked(
                    elements@[i],
                    is_clipped(infos@, kind, clip, bypass_clip, geometry, i),
                ),
        ),
{
    let ghost all = elements@;
    let clips: bool = match clip {
        Some(clip) => clip.clips_surface && !bypass_clip,
        None => false,
    };
    let best: Option<i64> = match geometry {
        Some(geometry) => best_distance(infos, geometry),
        None => None,
    };
    let mut out: Vec<WindowClipElement<E>> = Vec::new();
    let mut index: usize = 0;
    for element in it: elements
        invariant
            it.seq() == all,
            index == it.index(),
            infos@.len() == all.len(),
            clips == (clip is Some && clip->0.clips_surface && !bypass_clip),
            geometry is None ==> best is None,
            geometry is Some ==> (best is None <==> infos@.len() == 0),
            geometry is Some && best is Some ==> (forall|j: int|
                0 <= j < infos@.len() ==> best->0 <= size_distance(
                    #[trigger] infos@[j],
                    geometry->0,
                )) && (exists|j: int|
                0 <= j < infos@.len() && best->0 == size_distance(
                    #[trigger] infos@[j],
                    geometry->0,
                )),
            out@.len() == index,
            forall|i: int|
                0 <= i < index ==> #[trigger] out@[i] == marked(
                    all[i],
                    is_clipped(infos@, kind, clip, bypass_clip, geometry, i),
                ),
    {
        let info: SurfaceElementInfo = infos[index];
        assert(info == infos@[index as int]);
        let clipped: bool = clips && match kind {
            WindowSurfaceKind::Wayland => info.is_root,
            WindowSurfaceKind::X11 => match (geometry, best) {
                (Some(geometry), Some(best)) => distance(info, geometry) == best,
                _ => false,
            },
        };
        if clipped {
            out.push(WindowClipElement::Clipped(element));
        } else {
            out.push(WindowClipElement::Raw(element));
        }
        index += 1;
    }
    out
}

/// A window of the X server that is clipped, and has any surface and a content area, has
/// at least one clipped surface.
pub proof fn law_x11_clips_some_surface(
    infos: Seq<SurfaceElementInfo>,
    clip: ContentClip,
    geometry: LogicalRect,
)
    requires
        infos.len() > 0,
        clip.clips_surface,
    ensures
        exists|i: int|
            0 <= i < infos.len() && #[trigger] is_clipped(
                infos,
                WindowSurfaceKind::X11,
                Some(clip),
                false,
                Some(geometry),
                i,
            ),
{
    let i = nearest_index(infos, geometry);
    lemma_nearest_index(infos, geometry);
    assert(is_clipped(infos, WindowSurfaceKind::X11, Some(clip), false, Some(geometry), i));
}

spec fn nearest_index(infos: Seq<SurfaceElementInfo>, geometry: LogicalRect) -> int
    decreases infos.len(),
{
    if infos.len() <= 1 {
        0
    } else {
        let best = nearest_index(infos.drop_last(), geometry);
        if size_distance(infos.last(), geometry) < size_distance(infos[best], geometry) {
            infos.len() - 1
        } else {
            best
        }
    }
}

proof fn lemma_nearest_index(infos: Seq<SurfaceElementInfo>, geometry: LogicalRect)
    requires
        infos.len() > 0,
    ensures
        0 <= nearest_index(infos, geometry) < infos.len(),
        is_nearest(infos, geometry, nearest_index(infos, geometry)),
    decreases infos.len(),
{
    if infos.len() > 1 {
        let init = infos.drop_last();
        lemma_nearest_index(init, geometry);
        let best = nearest_index(init, geometry);
        assert(init[best] == infos[best]);
        assert forall|j: int| 0 <= j < infos.len() implies size_distance(
            infos[nearest_index(infos, geometry)],
            geometry,
        ) <= size_distance(#[trigger] infos[j], geometry) by {
            if j < init.len() {
                assert(init[j] == infos[j]);
            }
        }
    }
}

/// The clipped surfaces, from front to back.
pub open spec fn clipped_of<E>(elements: Seq<WindowClipElement<E>>) -> Seq<E>
    decreases elements.len(),
{
    if elements.len() == 0 {
        Seq::empty()
    } else {
        let rest = clipped_of(elements.drop_last());
        match elements.last() {
            WindowClipElement::Clipped(element) => rest.push(element),
            WindowClipElement::Raw(_) => rest,
        }
    }
}

/// The surfaces that are not clipped, from front to back.
pub open spec fn raw_of<E>(elements: Seq<WindowClipElement<E>>) -> Seq<E>
    decreases elements.len(),
{
    if elements.len() == 0 {
        Seq::empty()
    } else {
        let rest = raw_of(elements.drop_last());
        match elements.last() {
            WindowClipElement::Clipped(_) => rest,
            WindowClipElement::Raw(element) => rest.push(element),
        }
    }
}

/// Splits the surfaces of a window into those that are clipped and those that are not.
pub fn split_clipped<E>(elements: Vec<WindowClipElement<E>>) -> (out: (Vec<E>, Vec<E>))
    ensures
        out.0@ == clipped_of(elements@),
        out.1@ == raw_of(elements@),
{
    let ghost all = elements@;
    let mut clipped: Vec<E> = Vec::new();
    let mut raw: Vec<E> = Vec::new();
    for element in it: elements
        invariant
            it.seq() == all,
            clipped@ == clipped_of(all.take(it.index() as int)),
            raw@ == raw_of(all.take(it.index() as int)),
    {
        assert(all.take(it.index() + 1).drop_last() =~= all.take(it.index() as int));
        assert(all.take(it.index() + 1).last() == element);
        match element {
            WindowClipElement::Clipped(element) => {
                clipped.push(element);
            },
            WindowClipElement::Raw(element) => {
                raw.push(element);
            },
        }
    }
    assert(all.take(all.len() as int) =~= all);
    (clipped, raw)
}

/// At most the first of the elements.
pub open spec fn first_of<E>(elements: Seq<E>) -> Seq<E> {
    if elements.len() == 0 {
        elements
    } else {
        elements.take(1)
    }
}

/// All but the first of the elements.
pub open spec fn rest_of<E>(elements: Seq<E>) -> Seq<E> {
    if elements.len() == 0 {
        elements
    } else {
        elements.skip(1)
    }
}

fn take_first<E>(elements: Vec<E>) -> (out: Vec<E>)
    ensures
        out@ == first_of(elements@),
{
    let mut out: Vec<E> = elements;
    out.truncate(1);
    out
}

fn drop_first<E>(elements: Vec<E>) -> (out: Vec<E>)
    ensures
        out@ == rest_of(elements@),
{
    let mut out: Vec<E> = elements;
    if out.len() > 0 {
        let ghost all = out@;
        let _ = out.remove(0);
        assert(out@ =~= all.skip(1));
    }
    out
}

/// The root surface of a window, as effects that sample it see it: the first clipped
/// surface, or else the first one that is not clipped. Without a decoration that places
/// the content, or without any surface in it, what the window itself calls its root.
pub open spec fn root_source<E>(
    clipped: Option<Seq<WindowClipElement<E>>>,
    root_elements: Seq<E>,
    identity: bool,
) -> Seq<TtyRenderElement<E>> {
    match clipped {
        Some(list) if clipped_of(list).len() > 0 => scene::all_as(
            first_of(clipped_of(list)),
            scene::clipped_kind(identity),
        ),
        Some(list) if raw_of(list).len() > 0 => scene::all_as(
            first_of(raw_of(list)),
            scene::window_kind(identity),
        ),
        _ => scene::all_as(root_elements, scene::window_kind(identity)),
    }
}

pub open spec fn view_option<E>(list: Option<Vec<WindowClipElement<E>>>) -> Option<
    Seq<WindowClipElement<E>>,
> {
    match list {
        Some(list) => Some(list@),
        None => None,
    }
}

pub fn root_surface_source_elements_for_window<E>(
    clipped: Option<Vec<WindowClipElement<E>>>,
    root_elements: Vec<E>,
    identity: bool,
) -> (out: Vec<TtyRenderElement<E>>)
    ensures
        out@ == root_source(view_option(clipped), root_elements@, identity),
{
    match clipped {
        Some(list) => {
            let (clipped, raw): (Vec<E>, Vec<E>) = split_clipped(list);
            if clipped.len() > 0 {
                return scene::transform_clipped_elements(take_first(clipped), identity);
            }
            if raw.len() > 0 {
                return scene::transform_window_elements(take_first(raw), identity);
            }
        },
        None => {},
    }
    scene::transform_window_elements(root_elements, identity)
}

/// The surfaces of a window other than its root: those that are not clipped, without the
/// first when none is clipped; without a decoration that places the content, all but the
/// first.
pub open spec fn non_root_source<E>(
    clipped: Option<Seq<WindowClipElement<E>>>,
    elements: Seq<E>,
    identity: bool,
) -> Seq<TtyRenderElement<E>> {
    match clipped {
        Some(list) => scene::all_as(
            if clipped_of(list).len() > 0 {
                raw_of(list)
            } else {
                rest_of(raw_of(list))
            },
            scene::window_kind(identity),
        ),
        None => scene::all_as(rest_of(elements), scene::window_kind(identity)),
    }
}

pub fn non_root_surface_elements_for_window<E>(
    clipped: Option<Vec<WindowClipElement<E>>>,
    elements: Vec<E>,
    identity: bool,
) -> (out: Vec<TtyRenderElement<E>>)
    ensures
        out@ == non_root_source(view_option(clipped), elements@, identity),
{
    match clipped {
        Some(list) => {
            let (clipped, raw): (Vec<E>, Vec<E>) = split_clipped(list);
            if clipped.len() > 0 {
                scene::transform_window_elements(raw, identity)
            } else {
                scene::transform_window_elements(drop_first(raw), identity)
            }
        },
        None => scene::transform_window_elements(drop_first(elements), identity),
    }
}

/// Where the content is placed by a decoration and nothing is clipped, the root surface and
/// the others are all the surfaces, each of them once and in order.
pub proof fn law_root_and_others_are_the_window<E>(
    list: Seq<WindowClipElement<E>>,
    root_elements: Seq<E>,
    elements: Seq<E>,
    identity: bool,
)
    requires
        clipped_of(list).len() == 0,
        raw_of(list).len() > 0,
    ensures
        root_source(Some(list), root_elements, identity) + non_root_source(
            Some(list),
            elements,
            identity,
        ) == scene::all_as(raw_of(list), scene::window_kind(identity)),
{
    assert(first_of(raw_of(list)) + rest_of(raw_of(list)) =~= raw_of(list));
    assert(root_source(Some(list), root_elements, identity) + non_root_source(
        Some(list),
        elements,
        identity,
    ) =~= scene::all_as(raw_of(list), scene::window_kind(identity)));
}

/// The client's part of the picture of a whole window: the first clipped surface, or all of
/// them when the window is forced to a size; where none is clipped, the first surface.
pub open spec fn snapshot_client<E>(
    clipped: Option<Seq<WindowClipElement<E>>>,
    root_elements: Seq<E>,
    clip_all: bool,
) -> Seq<TtyRenderElement<E>> {
    match clipped {
        Some(list) => if clipped_of(list).len() > 0 {
            scene::all_as(
                if clip_all {
                    clipped_of(list)
                } else {
                    first_of(clipped_of(list))
                },
                TtyElementKind::Clipped,
            )
        } else {
            scene::all_as(first_of(raw_of(list)), TtyElementKind::Window)
        },
        None => scene::all_as(root_elements, TtyElementKind::Window),
    }
}

pub fn snapshot_client_elements<E>(
    clipped: Option<Vec<WindowClipElement<E>>>,
    root_elements: Vec<E>,
    clip_all: bool,
) -> (out: Vec<TtyRenderElement<E>>)
    ensures
        out@ == snapshot_client(view_option(clipped), root_elements@, clip_all),
{
    match clipped {
        Some(list) => {
            let (clipped, raw): (Vec<E>, Vec<E>) = split_clipped(list);
            if clipped.len() > 0 {
                if clip_all {
                    scene::transform_clipped_elements(clipped, true)
                } else {
                    scene::transform_clipped_elements(take_first(clipped), true)
                }
            } else {
                scene::transform_window_elements(take_first(raw), true)
            }
        },
        None => scene::transform_window_elements(root_elements, true),
    }
}

pub open spec fn placed_surface<E>(element: WindowClipElement<E>, identity: bool) -> TtyRenderElement<
    E,
> {
    match element {
        WindowClipElement::Clipped(element) => TtyRenderElement {
            kind: scene::clipped_kind(identity),
            element,
        },
        WindowClipElement::Raw(element) => TtyRenderElement {
            kind: scene::window_kind(identity),
            element,
        },
    }
}

/// The client's part of a window that is drawn element by element: each surface in turn.
pub fn live_client_elements<E>(clipped: Vec<WindowClipElement<E>>, identity: bool) -> (out: Vec<
    TtyRenderElement<E>,
>)
    ensures
        out@ == clipped@.map_values(|element: WindowClipElement<E>| placed_surface(
            element,
            identity,
        )),
{
    let ghost all = clipped@;
    let mut out: Vec<TtyRenderElement<E>> = Vec::new();
    for element in it: clipped
        invariant
            it.seq() == all,
            out@ =~= all.take(it.index() as int).map_values(
                |element: WindowClipElement<E>| placed_surface(element, identity),
            ),
    {
        match element {
            WindowClipElement::Clipped(element) => {
                out.push(TtyRenderElement { kind: scene::clipped_kind(identity), element });
            },
            WindowClipElement::Raw(element) => {
                out.push(TtyRenderElement { kind: scene::window_kind(identity), element });
            },
        }
    }
    assert(all.take(all.len() as int) =~= all);
    out
}

/// The surfaces that are not the root of the window.
pub open spec fn without_root<E>(elements: Seq<E>, infos: Seq<SurfaceElementInfo>) -> Seq<E>
    decreases elements.len(),
{
    if elements.len() == 0 {
        Seq::empty()
    } else {
        let rest = without_root(elements.drop_last(), infos);
        if infos[elements.len() - 1].is_root {
            rest
        } else {
            rest.push(elements.last())
        }
    }
}

/// The surfaces of a window other than its root. Under X11 the root is not known and every
/// surface counts.
pub fn non_root_surface_elements<E>(
    elements: Vec<E>,
    infos: &[SurfaceElementInfo],
    kind: WindowSurfaceKind,
) -> (out: Vec<E>)
    requires
        infos@.len() == elements@.len(),
    ensures
        out@ == (match kind {
            WindowSurfaceKind::Wayland => without_root(elements@, infos@),
            WindowSurfaceKind::X11 => elements@,
        }),
{
    match kind {
        WindowSurfaceKind::X11 => elements,
        WindowSurfaceKind::Wayland => {
            let ghost all = elements@;
            let mut out: Vec<E> = Vec::new();
            let mut index: usize = 0;
            for element in it: elements
                invariant
                    it.seq() == all,
                    index == it.index(),
                    infos@.len() == all.len(),
                    out@ == without_root(all.take(index as int), infos@),
            {
                assert(all.take(index + 1).drop_last() =~= all.take(index as int));
                assert(all.take(index + 1).last() == element);
                if !infos[index].is_root {
                    out.push(element);
                }
                index += 1;
            }
            assert(all.take(all.len() as int) =~= all);
            out
        },
    }
}

pub(crate) proof fn lemma_clip_parts_len<E>(list: Seq<WindowClipElement<E>>)
    ensures
        clipped_of(list).len() + raw_of(list).len() == list.len(),
    decreases list.len(),
{
    if list.len() > 0 {
        lemma_clip_parts_len(list.drop_last());
    }
}

/// Every surface is there, in its order. Under Wayland exactly the root surface is clipped, if
/// the decoration clips surfaces and the window does not bypass it.
pub proof fn law_wayland_clips_the_root<E>(
    elements: Vec<E>,
    infos: &[SurfaceElementInfo],
    clip: Option<ContentClip>,
    bypass_clip: bool,
    geometry: Option<LogicalRect>,
    out: Vec<WindowClipElement<E>>,
    i: int,
)
    requires
        infos@.len() == elements@.len(),
        call_ensures(
            clipped_surface_elements::<E>,
            (elements, infos, WindowSurfaceKind::Wayland, clip, bypass_clip, geometry),
            out,
        ),
        0 <= i < elements@.len(),
    ensures
        out@.len() == elements@.len(),
        infos@[i].is_root && clip is Some && clip->0.clips_surface && !bypass_clip ==> out@[i]
            == WindowClipElement::Clipped(elements@[i]),
        !infos@[i].is_root ==> out@[i] == WindowClipElement::Raw(elements@[i]),
        clip is None ==> out@[i] == WindowClipElement::Raw(elements@[i]),
        clip is Some && !clip->0.clips_surface ==> out@[i] == WindowClipElement::Raw(elements@[i]),
        bypass_clip ==> out@[i] == WindowClipElement::Raw(elements@[i]),
{
}

/// Under X11 exactly the surfaces that no other is nearer in size to the content than are
/// clipped; whether one is larger or smaller makes no difference.
pub proof fn law_x11_clips_the_nearest_in_size<E>(
    elements: Vec<E>,
    infos: &[SurfaceElementInfo],
    clip: Option<ContentClip>,
    bypass_clip: bool,
    geometry: Option<LogicalRect>,
    out: Vec<WindowClipElement<E>>,
    i: int,
    j: int,
)
    requires
        infos@.len() == elements@.len(),
        call_ensures(
            clipped_surface_elements::<E>,
            (elements, infos, WindowSurfaceKind::X11, clip, bypass_clip, geometry),
            out,
        ),
        0 <= i < elements@.len(),
        0 <= j < elements@.len(),
    ensures
        out@.len() == elements@.len(),
        clip is None || !clip->0.clips_surface || bypass_clip || geometry is None ==> out@[i]
            == WindowClipElement::Raw(elements@[i]),
        out@[i] == WindowClipElement::Raw(elements@[i]) || out@[i] == WindowClipElement::Clipped(
            elements@[i],
        ),
        out@[i] is Clipped ==> geometry is Some && {
            let w = geometry->0.width;
            let h = geometry->0.height;
            let a = infos@[i];
            let b = infos@[j];
            (if a.width < w {
                w - a.width
            } else {
                a.width - w
            }) + (if a.height < h {
                h - a.height
            } else {
                a.height - h
            }) <= (if b.width < w {
                w - b.width
            } else {
                b.width - w
            }) + (if b.height < h {
                h - b.height
            } else {
                b.height - h
            })
        },
        // What is exactly of the size of the content is clipped.
        clip is Some && clip->0.clips_surface && !bypass_clip && geometry is Some
            && infos@[i].width == geometry->0.width && infos@[i].height == geometry->0.height
            ==> out@[i] is Clipped,
        // Two surfaces of one size go together.
        infos@[i].width == infos@[j].width && infos@[i].height == infos@[j].height ==> (
        out@[i] is Clipped) == (out@[j] is Clipped),
{
    if geometry is Some && infos@[i].width == infos@[j].width && infos@[i].height
        == infos@[j].height {
        assert(size_distance(infos@[i], geometry->0) == size_distance(infos@[j], geometry->0));
        assert(is_nearest(infos@, geometry->0, i) == is_nearest(infos@, geometry->0, j));
    }
}

/// Splitting keeps every surface, on its side and in its order.
pub proof fn law_splitting_by_clip<E>(
    elements: Vec<WindowClipElement<E>>,
    longer: Vec<WindowClipElement<E>>,
    element: WindowClipElement<E>,
    out: (Vec<E>, Vec<E>),
    longer_out: (Vec<E>, Vec<E>),
)
    requires
        call_ensures(split_clipped::<E>, (elements,), out),
        call_ensures(split_clipped::<E>, (longer,), longer_out),
        longer@ == elements@.push(element),
    ensures
        out.0@.len() + out.1@.len() == elements@.len(),
        element matches WindowClipElement::Clipped(e) ==> longer_out.0@ == out.0@.push(e)
            && longer_out.1@ == out.1@,
        element matches WindowClipElement::Raw(e) ==> longer_out.1@ == out.1@.push(e)
            && longer_out.0@ == out.0@,
{
    assert(longer@.drop_last() =~= elements@);
    lemma_clip_parts_len(elements@);
}

/// The root surface as effects see it is one surface: the first that is clipped, else the first
/// there is; what the window calls its root counts where the decoration places nothing.
pub proof fn law_root_surface_sources<E>(
    clipped: Option<Vec<WindowClipElement<E>>>,
    root_elements: Vec<E>,
    identity: bool,
    out: Vec<TtyRenderElement<E>>,
    i: int,
)
    requires
        call_ensures(
            root_surface_source_elements_for_window::<E>,
            (clipped, root_elements, identity),
            out,
        ),
    ensures
        clipped is None || clipped->0@.len() == 0 ==> out@.len() == root_elements@.len() && (0 <= i
            < root_elements@.len() ==> out@[i].element == root_elements@[i] && out@[i].kind
            == if identity {
            TtyElementKind::Window
        } else {
            TtyElementKind::TransformedWindow
        }),
        clipped is Some && clipped->0@.len() > 0 ==> out@.len() == 1,
        clipped is Some && clipped_of(clipped->0@).len() > 0 ==> out@[0].element == clipped_of(
            clipped->0@,
        )[0] && out@[0].kind == if identity {
            TtyElementKind::Clipped
        } else {
            TtyElementKind::TransformedClipped
        },
        clipped is Some && clipped->0@.len() > 0 && clipped_of(clipped->0@).len() == 0
            ==> out@[0].element == raw_of(clipped->0@)[0] && out@[0].kind == if identity {
            TtyElementKind::Window
        } else {
            TtyElementKind::TransformedWindow
        },
{
    if clipped is Some {
        lemma_clip_parts_len(clipped->0@);
    }
}

/// The surfaces apart from the root are all those that the root surface is not, in order.
pub proof fn law_non_root_surface_sources<E>(
    clipped: Option<Vec<WindowClipElement<E>>>,
    elements: Vec<E>,
    identity: bool,
    out: Vec<TtyRenderElement<E>>,
    i: int,
)
    requires
        call_ensures(
            non_root_surface_elements_for_window::<E>,
            (clipped, elements, identity),
            out,
        ),
    ensures
        0 <= i < out@.len() ==> out@[i].kind == if identity {
            TtyElementKind::Window
        } else {
            TtyElementKind::TransformedWindow
        },
        clipped is None && elements@.len() > 0 ==> out@.len() == elements@.len() - 1,
        clipped is None && 0 <= i < out@.len() ==> out@[i].element == elements@[i + 1],
        clipped is None && elements@.len() == 0 ==> out@.len() == 0,
        clipped is Some && clipped_of(clipped->0@).len() > 0 ==> out@.len() == raw_of(
            clipped->0@,
        ).len() && (0 <= i < out@.len() ==> out@[i].element == raw_of(clipped->0@)[i]),
        clipped is Some && clipped_of(clipped->0@).len() == 0 && clipped->0@.len() > 0 ==> out@.len()
            == raw_of(clipped->0@).len() - 1 && (0 <= i < out@.len() ==> out@[i].element == raw_of(
            clipped->0@,
        )[i + 1]),
{
    if clipped is Some {
        lemma_clip_parts_len(clipped->0@);
    }
}

/// The client's part of a picture of the whole window is never moved or scaled: the picture is.
/// One clipped surface is in it, or all of them for a window that is forced to a size.
pub proof fn law_snapshot_clients<E>(
    clipped: Option<Vec<WindowClipElement<E>>>,
    root_elements: Vec<E>,
    clip_all: bool,
    out: Vec<TtyRenderElement<E>>,
    i: int,
)
    requires
        call_ensures(snapshot_client_elements::<E>, (clipped, root_elements, clip_all), out),
    ensures
        0 <= i < out@.len() ==> out@[i].kind == TtyElementKind::Window || out@[i].kind
            == TtyElementKind::Clipped,
        clipped is None ==> out@.len() == root_elements@.len() && (0 <= i < out@.len()
            ==> out@[i].element == root_elements@[i]),
        clipped is Some && clipped_of(clipped->0@).len() > 0 && clip_all ==> out@.len()
            == clipped_of(clipped->0@).len() && (0 <= i < out@.len() ==> out@[i].element
            == clipped_of(clipped->0@)[i] && out@[i].kind == TtyElementKind::Clipped),
        clipped is Some && clipped_of(clipped->0@).len() > 0 && !clip_all ==> out@.len() == 1
            && out@[0].element == clipped_of(clipped->0@)[0] && out@[0].kind
            == TtyElementKind::Clipped,
        clipped is Some && clipped_of(clipped->0@).len() == 0 && clipped->0@.len() > 0 ==> out@.len()
            == 1 && out@[0].element == raw_of(clipped->0@)[0] && out@[0].kind
            == TtyElementKind::Window,
        clipped is Some && clipped->0@.len() == 0 ==> out@.len() == 0,
{
    if clipped is Some {
        lemma_clip_parts_len(clipped->0@);
    }
}

/// Each surface is drawn in turn, clipped or not as it is marked.
pub proof fn law_live_clients<E>(
    clipped: Vec<WindowClipElement<E>>,
    identity: bool,
    out: Vec<TtyRenderElement<E>>,
    i: int,
)
    requires
        call_ensures(live_client_elements::<E>, (clipped, identity), out),
        0 <= i < clipped@.len(),
    ensures
        out@.len() == clipped@.len(),
        clipped@[i] matches WindowClipElement::Clipped(e) ==> out@[i].element == e && out@[i].kind
            == if identity {
            TtyElementKind::Clipped
        } else {
            TtyElementKind::TransformedClipped
        },
        clipped@[i] matches WindowClipElement::Raw(e) ==> out@[i].element == e && out@[i].kind
            == if identity {
            TtyElementKind::Window
        } else {
            TtyElementKind::TransformedWindow
        },
{
}

proof fn lemma_without_root_prefix<E>(
    elements: Seq<E>,
    a: Seq<SurfaceElementInfo>,
    b: Seq<SurfaceElementInfo>,
)
    requires
        forall|i: int| 0 <= i < elements.len() ==> #[trigger] a[i] == b[i],
    ensures
        without_root(elements, a) == without_root(elements, b),
    decreases elements.len(),
{
    if elements.len() > 0 {
        lemma_without_root_prefix(elements.drop_last(), a, b);
        assert(a[elements.len() - 1] == b[elements.len() - 1]);
    }
}

/// Exactly the root surface is left out under Wayland, and none under X11; the rest stays in
/// order.
pub proof fn law_surfaces_without_the_root<E>(
    elements: Vec<E>,
    longer: Vec<E>,
    element: E,
    infos: &[SurfaceElementInfo],
    longer_infos: &[SurfaceElementInfo],
    info: SurfaceElementInfo,
    kind: WindowSurfaceKind,
    out: Vec<E>,
    longer_out: Vec<E>,
)
    requires
        infos@.len() == elements@.len(),
        longer@ == elements@.push(element),
        longer_infos@ == infos@.push(info),
        call_ensures(non_root_surface_elements::<E>, (elements, infos, kind), out),
        call_ensures(non_root_surface_elements::<E>, (longer, longer_infos, kind), longer_out),
    ensures
        elements@.len() == 0 ==> out@.len() == 0,
        kind == WindowSurfaceKind::X11 ==> longer_out@ == longer@,
        kind == WindowSurfaceKind::Wayland && info.is_root ==> longer_out@ == out@,
        kind == WindowSurfaceKind::Wayland && !info.is_root ==> longer_out@ == out@.push(element),
{
    assert(longer@.drop_last() =~= elements@);
    lemma_without_root_prefix(elements@, infos@, longer_infos@);
}

} // verus!
