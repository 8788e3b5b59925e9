//! How the scene of a frame is put together.
//!
//! Lists of elements run from front to back.

use vstd::prelude::*;

verus! {

/// What an element of a frame shows, and how it is placed.
#[derive(Clone, Copy, Debug, PartialEq, Eq, Structural)]
pub enum TtyElementKind {
    Window,
    TransformedWindow,
    Clipped,
    TransformedClipped,
    Text,
    RelocatedText,
    TransformedText,
    Snapshot,
    TransformedSnapshot,
    Damage,
    Blink,
    Decoration,
    RelocatedDecoration,
    TransformedDecoration,
    Backdrop,
    RelocatedBackdrop,
    TransformedBackdrop,
    Cursor,
    Generic,
}

pub fn tty_render_element_name(kind: TtyElementKind) -> (name: &'static str)
    ensures
        name@ == element_name(kind),
{
    match kind {
        TtyElementKind::Window => "Window",
        TtyElementKind::TransformedWindow => "TransformedWindow",
        TtyElementKind::Clipped => "Clipped",
        TtyElementKind::TransformedClipped => "TransformedClipped",
        TtyElementKind::Text => "Text",
        TtyElementKind::RelocatedText => "RelocatedText",
        TtyElementKind::TransformedText => "TransformedText",
        TtyElementKind::Snapshot => "Snapshot",
        TtyElementKind::TransformedSnapshot => "TransformedSnapshot",
        TtyElementKind::Damage => "Damage",
        TtyElementKind::Blink => "Blink",
        TtyElementKind::Decoration => "Decoration",
        TtyElementKind::RelocatedDecoration => "RelocatedDecoration",
        TtyElementKind::TransformedDecoration => "TransformedDecoration",
        TtyElementKind::Backdrop => "Backdrop",
        TtyElementKind::RelocatedBackdrop => "RelocatedBackdrop",
        TtyElementKind::TransformedBackdrop => "TransformedBackdrop",
        TtyElementKind::Cursor => "Cursor",
        TtyElementKind::Generic => "Generic",
    }
}

pub open spec fn element_name(kind: TtyElementKind) -> Seq<char> {
    match kind {
        TtyElementKind::Window => "Window"@,
        TtyElementKind::TransformedWindow => "TransformedWindow"@,
        TtyElementKind::Clipped => "Clipped"@,
        TtyElementKind::TransformedClipped => "TransformedClipped"@,
        TtyElementKind::Text => "Text"@,
        TtyElementKind::RelocatedText => "RelocatedText"@,
        TtyElementKind::TransformedText => "TransformedText"@,
        TtyElementKind::Snapshot => "Snapshot"@,
        TtyElementKind::TransformedSnapshot => "TransformedSnapshot"@,
        TtyElementKind::Damage => "Damage"@,
        TtyElementKind::Blink => "Blink"@,
        TtyElementKind::Decoration => "Decoration"@,
        TtyElementKind::RelocatedDecoration => "RelocatedDecoration"@,
        TtyElementKind::TransformedDecoration => "TransformedDecoration"@,
        TtyElementKind::Backdrop => "Backdrop"@,
        TtyElementKind::RelocatedBackdrop => "RelocatedBackdrop"@,
        TtyElementKind::TransformedBackdrop => "TransformedBackdrop"@,
        TtyElementKind::Cursor => "Cursor"@,
        TtyElementKind::Generic => "Generic"@,
    }
}

/// A render element together with the label under which the time to draw it is reported.
pub struct ProfiledTtyRenderElement<'a, E> {
    pub inner: &'a E,
    pub draw_label: &'static str,
}

/// The label does not tell apart how an element is placed.
pub open spec fn draw_label(kind: TtyElementKind) -> Seq<char> {
    match kind {
        TtyElementKind::Window | TtyElementKind::TransformedWindow => "tty-element-window-draw"@,
        TtyElementKind::Clipped | TtyElementKind::TransformedClipped => "tty-element-clipped-draw"@,
        TtyElementKind::Text | TtyElementKind::RelocatedText | TtyElementKind::TransformedText =>
            "tty-element-text-draw"@,
        TtyElementKind::Snapshot
        | TtyElementKind::TransformedSnapshot => "tty-element-snapshot-draw"@,
        TtyElementKind::Damage => "tty-element-damage-draw"@,
        TtyElementKind::Blink => "tty-element-blink-draw"@,
        TtyElementKind::Decoration
        | TtyElementKind::RelocatedDecoration
        | TtyElementKind::TransformedDecoration => "tty-element-decoration-draw"@,
        TtyElementKind::Backdrop
        | TtyElementKind::RelocatedBackdrop
        | TtyElementKind::TransformedBackdrop => "tty-element-backdrop-draw"@,
        TtyElementKind::Cursor => "tty-element-cursor-draw"@,
        TtyElementKind::Generic => "tty-element-generic-draw"@,
    }
}

impl<'a, E> ProfiledTtyRenderElement<'a, E> {
    pub fn new(kind: TtyElementKind, inner: &'a E) -> (profiled: Self)
        ensures
            profiled.inner == inner,
            profiled.draw_label@ == draw_label(kind),
    {
        let draw_label: &'static str = match kind {
            TtyElementKind::Window
            | TtyElementKind::TransformedWindow => "tty-element-window-draw",
            TtyElementKind::Clipped
            | TtyElementKind::TransformedClipped => "tty-element-clipped-draw",
            TtyElementKind::Text
            | TtyElementKind::RelocatedText
            | TtyElementKind::TransformedText => "tty-element-text-draw",
            TtyElementKind::Snapshot
            | TtyElementKind::TransformedSnapshot => "tty-element-snapshot-draw",
            TtyElementKind::Damage => "tty-element-damage-draw",
            TtyElementKind::Blink => "tty-element-blink-draw",
            TtyElementKind::Decoration
            | TtyElementKind::RelocatedDecoration
            | TtyElementKind::TransformedDecoration => "tty-element-decoration-draw",
            TtyElementKind::Backdrop
            | TtyElementKind::RelocatedBackdrop
            | TtyElementKind::TransformedBackdrop => "tty-element-backdrop-draw",
            TtyElementKind::Cursor => "tty-element-cursor-draw",
            TtyElementKind::Generic => "tty-element-generic-draw",
        };
        ProfiledTtyRenderElement { inner, draw_label }
    }
}

/// An element and what it becomes in the frame.
pub struct TtyRenderElement<E> {
    pub kind: TtyElementKind,
    pub element: E,
}

/// Each element in turn, as `kind`.
pub open spec fn all_as<E>(elements: Seq<E>, kind: TtyElementKind) -> Seq<TtyRenderElement<E>> {
    elements.map_values(|element: E| TtyRenderElement { kind, element })
}

fn label_all<E>(elements: Vec<E>, kind: TtyElementKind) -> (out: Vec<TtyRenderElement<E>>)
    ensures
        out@ == all_as(elements@, kind),
{
    let ghost all = elements@;
    let mut out: Vec<TtyRenderElement<E>> = Vec::new();
    for element in it: elements
        invariant
            it.seq() == all,
            out@ =~= all_as(all.take(it.index() as int), kind),
    {
        out.push(TtyRenderElement { kind, element });
    }
    assert(all.take(all.len() as int) =~= all);
    out
}

/// Surfaces stand where the output expects them; a moved or scaled window moves and scales
/// them.
#[verifier::allow_in_spec]
pub fn window_kind(identity: bool) -> (kind: TtyElementKind)
    returns
        (if identity {
            TtyElementKind::Window
        } else {
            TtyElementKind::TransformedWindow
        }),
{
    if identity {
        TtyElementKind::Window
    } else {
        TtyElementKind::TransformedWindow
    }
}

#[verifier::allow_in_spec]
pub fn clipped_kind(identity: bool) -> (kind: TtyElementKind)
    returns
        (if identity {
            TtyElementKind::Clipped
        } else {
            TtyElementKind::TransformedClipped
        }),
{
    if identity {
        TtyElementKind::Clipped
    } else {
        TtyElementKind::TransformedClipped
    }
}

#[verifier::allow_in_spec]
pub fn snapshot_kind(identity: bool) -> (kind: TtyElementKind)
    returns
        (if identity {
            TtyElementKind::Snapshot
        } else {
            TtyElementKind::TransformedSnapshot
        }),
{
    if identity {
        TtyElementKind::Snapshot
    } else {
        TtyElementKind::TransformedSnapshot
    }
}

/// Text, decorations and backdrops stand relative to their window, so they are always
/// relocated to it, and then moved and scaled with it.
#[verifier::allow_in_spec]
pub fn text_kind(identity: bool) -> (kind: TtyElementKind)
    returns
        (if identity {
            TtyElementKind::RelocatedText
        } else {
            TtyElementKind::TransformedText
        }),
{
    if identity {
        TtyElementKind::RelocatedText
    } else {
        TtyElementKind::TransformedText
    }
}

#[verifier::allow_in_spec]
pub fn decoration_kind(identity: bool) -> (kind: TtyElementKind)
    returns
        (if identity {
            TtyElementKind::RelocatedDecoration
        } else {
            TtyElementKind::TransformedDecoration
        }),
{
    if identity {
        TtyElementKind::RelocatedDecoration
    } else {
        TtyElementKind::TransformedDecoration
    }
}

#[verifier::allow_in_spec]
pub fn backdrop_kind(identity: bool) -> (kind: TtyElementKind)
    returns
        (if identity {
            TtyElementKind::RelocatedBackdrop
        } else {
            TtyElementKind::TransformedBackdrop
        }),
{
    if identity {
        TtyElementKind::RelocatedBackdrop
    } else {
        TtyElementKind::TransformedBackdrop
    }
}

pub fn transform_window_elements<E>(elements: Vec<E>, identity: bool) -> (out: Vec<
    TtyRenderElement<E>,
>)
    ensures
        out@ == all_as(elements@, window_kind(identity)),
{
    label_all(elements, window_kind(identity))
}

pub fn transform_clipped_elements<E>(elements: Vec<E>, identity: bool) -> (out: Vec<
    TtyRenderElement<E>,
>)
    ensures
        out@ == all_as(elements@, clipped_kind(identity)),
{
    label_all(elements, clipped_kind(identity))
}

pub fn transform_snapshot_elements<E>(elements: Vec<E>, identity: bool) -> (out: Vec<
    TtyRenderElement<E>,
>)
    ensures
        out@ == all_as(elements@, snapshot_kind(identity)),
{
    label_all(elements, snapshot_kind(identity))
}

pub fn transform_text_elements<E>(elements: Vec<E>, identity: bool) -> (out: Vec<
    TtyRenderElement<E>,
>)
    ensures
        out@ == all_as(elements@, text_kind(identity)),
{
    label_all(elements, text_kind(identity))
}

pub fn transform_decoration_elements<E>(elements: Vec<E>, identity: bool) -> (out: Vec<
    TtyRenderElement<E>,
>)
    ensures
        out@ == all_as(elements@, decoration_kind(identity)),
{
    label_all(elements, decoration_kind(identity))
}

pub fn transform_backdrop_elements<E>(elements: Vec<E>, identity: bool) -> (out: Vec<
    TtyRenderElement<E>,
>)
    ensures
        out@ == all_as(elements@, backdrop_kind(identity)),
{
    label_all(elements, backdrop_kind(identity))
}

/// Each element with its place in the order, as `kind`.
pub open spec fn all_ordered_as<E>(items: Seq<(usize, E)>, kind: TtyElementKind) -> Seq<
    (usize, TtyRenderElement<E>),
> {
    items.map_values(|item: (usize, E)| (item.0, TtyRenderElement { kind, element: item.1 }))
}

/// Appends elements that keep their place in the order.
pub fn append_ordered<E>(
    out: &mut Vec<(usize, TtyRenderElement<E>)>,
    items: Vec<(usize, E)>,
    kind: TtyElementKind,
)
    ensures
        final(out)@ == old(out)@ + all_ordered_as(items@, kind),
{
    let ghost all = items@;
    let ghost before = out@;
    for item in it: items
        invariant
            it.seq() == all,
            out@ =~= before + all_ordered_as(all.take(it.index() as int), kind),
    {
        out.push((item.0, TtyRenderElement { kind, element: item.1 }));
    }
    assert(all.take(all.len() as int) =~= all);
}

/// Surfaces of a window that is neither moved nor scaled are shown as they are; others move and
/// scale with it. All are there, in their order.
pub proof fn law_transform_window_elements<E>(
    elements: Vec<E>,
    identity: bool,
    out: Vec<TtyRenderElement<E>>,
    i: int,
)
    requires
        call_ensures(transform_window_elements::<E>, (elements, identity), out),
        0 <= i < elements@.len(),
    ensures
        out@.len() == elements@.len(),
        out@[i].element == elements@[i],
        identity ==> out@[i].kind == TtyElementKind::Window,
        !identity ==> out@[i].kind == TtyElementKind::TransformedWindow,
{
}

/// Clipped surfaces move and scale with their window; all are there, in their order.
pub proof fn law_transform_clipped_elements<E>(
    elements: Vec<E>,
    identity: bool,
    out: Vec<TtyRenderElement<E>>,
    i: int,
)
    requires
        call_ensures(transform_clipped_elements::<E>, (elements, identity), out),
        0 <= i < elements@.len(),
    ensures
        out@.len() == elements@.len(),
        out@[i].element == elements@[i],
        identity ==> out@[i].kind == TtyElementKind::Clipped,
        !identity ==> out@[i].kind == TtyElementKind::TransformedClipped,
{
}

/// Pictures of windows move and scale with their window; all are there, in their order.
pub proof fn law_transform_snapshot_elements<E>(
    elements: Vec<E>,
    identity: bool,
    out: Vec<TtyRenderElement<E>>,
    i: int,
)
    requires
        call_ensures(transform_snapshot_elements::<E>, (elements, identity), out),
        0 <= i < elements@.len(),
    ensures
        out@.len() == elements@.len(),
        out@[i].element == elements@[i],
        identity ==> out@[i].kind == TtyElementKind::Snapshot,
        !identity ==> out@[i].kind == TtyElementKind::TransformedSnapshot,
{
}

/// Text always stands relative to its window; all of it is there, in its order.
pub proof fn law_transform_text_elements<E>(
    elements: Vec<E>,
    identity: bool,
    out: Vec<TtyRenderElement<E>>,
    i: int,
)
    requires
        call_ensures(transform_text_elements::<E>, (elements, identity), out),
        0 <= i < elements@.len(),
    ensures
        out@.len() == elements@.len(),
        out@[i].element == elements@[i],
        identity ==> out@[i].kind == TtyElementKind::RelocatedText,
        !identity ==> out@[i].kind == TtyElementKind::TransformedText,
{
}

/// Decorations always stand relative to their window; all are there, in their order.
pub proof fn law_transform_decoration_elements<E>(
    elements: Vec<E>,
    identity: bool,
    out: Vec<TtyRenderElement<E>>,
    i: int,
)
    requires
        call_ensures(transform_decoration_elements::<E>, (elements, identity), out),
        0 <= i < elements@.len(),
    ensures
        out@.len() == elements@.len(),
        out@[i].element == elements@[i],
        identity ==> out@[i].kind == TtyElementKind::RelocatedDecoration,
        !identity ==> out@[i].kind == TtyElementKind::TransformedDecoration,
{
}

/// Backdrops always stand relative to their window; all are there, in their order.
pub proof fn law_transform_backdrop_elements<E>(
    elements: Vec<E>,
    identity: bool,
    out: Vec<TtyRenderElement<E>>,
    i: int,
)
    requires
        call_ensures(transform_backdrop_elements::<E>, (elements, identity), out),
        0 <= i < elements@.len(),
    ensures
        out@.len() == elements@.len(),
        out@[i].element == elements@[i],
        identity ==> out@[i].kind == TtyElementKind::RelocatedBackdrop,
        !identity ==> out@[i].kind == TtyElementKind::TransformedBackdrop,
{
}

/// Appended elements keep their places in the order, and what was there stays in front.
pub proof fn law_appended_elements_keep_their_order<E>(
    out: &mut Vec<(usize, TtyRenderElement<E>)>,
    items: Vec<(usize, E)>,
    kind: TtyElementKind,
    i: int,
)
    requires
        call_ensures(append_ordered::<E>, (out, items, kind), ()),
    ensures
        final(out)@.len() == old(out)@.len() + items@.len(),
        final(out)@.take(old(out)@.len() as int) == old(out)@,
        0 <= i < items@.len() ==> final(out)@[old(out)@.len() + i].0 == items@[i].0 && final(
            out)@[old(out)@.len() + i].1 == (TtyRenderElement { kind, element: items@[i].1 }),
{
    assert(final(out)@.take(old(out)@.len() as int) =~= old(out)@);
}

/// Elements that differ only in how they are placed are reported under one label, and every
/// kind has a name of its own.
pub proof fn law_labels_and_names<'a, E>(
    kind: TtyElementKind,
    other: TtyElementKind,
    inner: &'a E,
    a: ProfiledTtyRenderElement<'a, E>,
    b: ProfiledTtyRenderElement<'a, E>,
    identity: bool,
)
    requires
        call_ensures(ProfiledTtyRenderElement::<'a, E>::new, (kind, inner), a),
        call_ensures(ProfiledTtyRenderElement::<'a, E>::new, (other, inner), b),
    ensures
        a.inner == inner,
        kind == window_kind(true) && other == window_kind(false) ==> a.draw_label@ == b.draw_label@,
        kind == clipped_kind(true) && other == clipped_kind(false) ==> a.draw_label@
            == b.draw_label@,
        kind == snapshot_kind(true) && other == snapshot_kind(false) ==> a.draw_label@
            == b.draw_label@,
        (kind == TtyElementKind::Text || kind == text_kind(true)) && other == text_kind(false)
            ==> a.draw_label@ == b.draw_label@,
        (kind == TtyElementKind::Decoration || kind == decoration_kind(true)) && other
            == decoration_kind(false) ==> a.draw_label@ == b.draw_label@,
        (kind == TtyElementKind::Backdrop || kind == backdrop_kind(true)) && other == backdrop_kind(
            false,
        ) ==> a.draw_label@ == b.draw_label@,
        kind == TtyElementKind::Window ==> a.draw_label@ == "tty-element-window-draw"@,
        kind == TtyElementKind::Cursor ==> a.draw_label@ == "tty-element-cursor-draw"@,
{
}

/// Kinds of elements are told apart by their names.
pub proof fn law_kinds_are_told_apart(
    a: TtyElementKind,
    b: TtyElementKind,
    a_name: &'static str,
    b_name: &'static str,
)
    requires
        call_ensures(tty_render_element_name, (a,), a_name),
        call_ensures(tty_render_element_name, (b,), b_name),
    ensures
        a_name@ == b_name@ <==> a == b,
{
    reveal_strlit("Window");
    reveal_strlit("TransformedWindow");
    reveal_strlit("Clipped");
    reveal_strlit("TransformedClipped");
    reveal_strlit("Text");
    reveal_strlit("RelocatedText");
    reveal_strlit("TransformedText");
    reveal_strlit("Snapshot");
    reveal_strlit("TransformedSnapshot");
    reveal_strlit("Damage");
    reveal_strlit("Blink");
    reveal_strlit("Decoration");
    reveal_strlit("RelocatedDecoration");
    reveal_strlit("TransformedDecoration");
    reveal_strlit("Backdrop");
    reveal_strlit("RelocatedBackdrop");
    reveal_strlit("TransformedBackdrop");
    reveal_strlit("Cursor");
    reveal_strlit("Generic");
    if a_name@ == b_name@ {
        assert(a_name@.len() == b_name@.len() && a_name@[0] == b_name@[0]);
        assert(a_name@[11] == b_name@[11]);
    }
}

/// Things of a window at rest are shown as they are or relocated to it, and others are moved and
/// scaled with it; kinds of things stay apart.
pub proof fn law_kinds_of_things(identity: bool)
    ensures
        window_kind(true) == TtyElementKind::Window,
        window_kind(false) == TtyElementKind::TransformedWindow,
        clipped_kind(true) == TtyElementKind::Clipped,
        clipped_kind(false) == TtyElementKind::TransformedClipped,
        snapshot_kind(true) == TtyElementKind::Snapshot,
        snapshot_kind(false) == TtyElementKind::TransformedSnapshot,
        text_kind(true) == TtyElementKind::RelocatedText,
        text_kind(false) == TtyElementKind::TransformedText,
        decoration_kind(true) == TtyElementKind::RelocatedDecoration,
        decoration_kind(false) == TtyElementKind::TransformedDecoration,
        backdrop_kind(true) == TtyElementKind::RelocatedBackdrop,
        backdrop_kind(false) == TtyElementKind::TransformedBackdrop,
{
}

} // verus!
