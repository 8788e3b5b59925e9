//! The pass over the windows of an output: which are drawn, which are drawn from a picture
//! of the whole window, and how the elements of each are put together.
//!
//! A window that is scaled is drawn from a picture of it, since its elements cannot be
//! scaled one by one without seams.

use crate::clip::{self, WindowClipElement};
use crate::effects::{self, EffectInput, SlotArea, SlotPlacement, SlotSource};
use crate::geometry::LogicalRect;
use crate::order;
use crate::scene::{self, TtyElementKind, TtyRenderElement};
use crate::table::{self, NameSet, NameTable};
use vstd::prelude::*;

verus! {

/// What decides whether a window is drawn at all.
#[derive(Clone, Copy, Debug, PartialEq, Eq, Structural)]
pub struct WindowFacts {
    pub in_layout: bool,
    pub has_decoration: bool,
    /// The window may be rendered on this output.
    pub render_allowed: bool,
    /// The window is shown as one that is closing.
    pub closing: bool,
    /// The number of surfaces that have something to show.
    pub surface_count: usize,
}

impl WindowFacts {
    pub open spec fn is_drawn(self) -> bool {
        self.in_layout && self.has_decoration && self.render_allowed && !self.closing
            && self.surface_count > 0
    }
}

pub fn window_is_drawn(facts: &WindowFacts) -> (r: bool)
    ensures
        r == facts.is_drawn(),
{
    facts.in_layout && facts.has_decoration && facts.render_allowed && !facts.closing
        && facts.surface_count > 0
}

/// The windows that are drawn from a picture of the whole window.
pub struct SnapshotSets {
    /// They were drawn so when they were drawn last.
    pub transform: NameSet,
    /// Their contents have changed since the picture was taken.
    pub dirty: NameSet,
    /// They have moved since the frame before.
    pub changed: NameSet,
}

/// What was counted in one pass.
#[derive(Clone, Copy, Debug, PartialEq, Eq, Structural)]
pub struct PassTotals {
    /// Windows drawn from a picture.
    pub snapshot_windows: usize,
    /// Those of them whose contents have changed.
    pub damaged_windows: usize,
    /// There is one of these.
    pub had_snapshot_damage: bool,
}

/// How a window is drawn in this frame.
#[derive(Clone, Copy, Debug, PartialEq, Eq, Structural)]
pub struct WindowVisit {
    pub use_full_snapshot: bool,
    pub dirty: bool,
    /// The whole area of the window has to be painted again.
    pub repaint: bool,
}

pub open spec fn one_more(count: usize, when: bool) -> usize {
    if when && count < usize::MAX {
        (count + 1) as usize
    } else {
        count
    }
}

/// The totals with one more window.
pub open spec fn counted(totals: PassTotals, scaled: bool, dirty: bool) -> PassTotals {
    PassTotals {
        snapshot_windows: one_more(totals.snapshot_windows, scaled),
        damaged_windows: one_more(totals.damaged_windows, scaled && dirty),
        had_snapshot_damage: totals.had_snapshot_damage || (scaled && dirty),
    }
}

pub open spec fn visit_of(scaled: bool, was_snapshot: bool, dirty: bool) -> WindowVisit {
    WindowVisit {
        use_full_snapshot: scaled,
        dirty,
        repaint: scaled != was_snapshot || (scaled && dirty),
    }
}

/// Whether a window that is drawn from a picture has moved: it differs from the last time it
/// was drawn so, or this is the first time.
pub fn snapshot_moved(known_before: bool, differs: bool) -> (moved: bool)
    ensures
        moved == (!known_before || differs),
{
    !known_before || differs
}

/// Decides how a window is drawn. `scaled` tells that it has to be drawn from a picture and
/// `moved` that its position or size is not that of the frame before, see `snapshot_moved`.
pub fn begin_window(
    sets: &mut SnapshotSets,
    totals: &mut PassTotals,
    id: &str,
    scaled: bool,
    moved: bool,
) -> (visit: WindowVisit)
    ensures
        visit == visit_of(
            scaled,
            old(sets).transform@.contains(id@),
            old(sets).dirty@.contains(id@),
        ),
        final(sets).transform@ == (if scaled {
            old(sets).transform@.insert(id@)
        } else {
            old(sets).transform@.remove(id@)
        }),
        final(sets).dirty@ == old(sets).dirty@,
        final(sets).changed@ == (if scaled && moved {
            old(sets).changed@.insert(id@)
        } else {
            old(sets).changed@
        }),
        *final(totals) == counted(*old(totals), scaled, visit.dirty),
{
    let was_snapshot: bool = sets.transform.contains(id);
    let dirty: bool = sets.dirty.contains(id);
    if scaled {
        totals.snapshot_windows = totals.snapshot_windows.saturating_add(1);
        if dirty {
            totals.damaged_windows = totals.damaged_windows.saturating_add(1);
            totals.had_snapshot_damage = true;
        }
        if moved {
            sets.changed.insert(id);
        }
        sets.transform.insert(id);
    } else {
        sets.transform.remove(id);
    }
    WindowVisit {
        use_full_snapshot: scaled,
        dirty,
        repaint: scaled != was_snapshot || (scaled && dirty),
    }
}

/// A window has been drawn: its contents are those of the frame, and its decoration may be
/// drawn from now on. Tells whether this is the first time.
pub fn finish_window(sets: &mut SnapshotSets, ready: &mut NameSet, id: &str) -> (first_time: bool)
    ensures
        final(sets).transform@ == old(sets).transform@,
        final(sets).changed@ == old(sets).changed@,
        final(sets).dirty@ == old(sets).dirty@.remove(id@),
        final(ready)@ == old(ready)@.insert(id@),
        first_time == !old(ready)@.contains(id@),
{
    sets.dirty.remove(id);
    ready.insert(id)
}

/// Whenever a window changes between being drawn from a picture and being drawn element by
/// element, all of its area is painted again.
pub proof fn law_switching_repaints(scaled: bool, was_snapshot: bool, dirty: bool)
    requires
        scaled != was_snapshot,
    ensures
        visit_of(scaled, was_snapshot, dirty).repaint,
{
}

/// A window at rest with unchanged contents causes no painting of its own.
pub proof fn law_unchanged_windows_are_not_repainted(scaled: bool)
    ensures
        !visit_of(scaled, scaled, false).repaint,
{
}

/// The picture of a whole window that is kept.
#[derive(Clone, Copy, Debug, PartialEq, Eq, Structural)]
pub struct CompleteSnapshot {
    pub signature: u64,
    pub rect: LogicalRect,
}

/// The kept picture shows the window as it is.
pub open spec fn is_current(
    entry: Option<CompleteSnapshot>,
    signature: u64,
    dirty: bool,
) -> bool {
    !dirty && entry is Some && entry->0.signature == signature
}

/// Uses the kept picture of a window again, at its present place, if it still shows what
/// the window shows. Otherwise the picture is given up.
pub fn reuse_complete_snapshot(
    snapshots: &mut NameTable<CompleteSnapshot>,
    id: &str,
    signature: u64,
    rect: LogicalRect,
    dirty: bool,
) -> (reused: bool)
    ensures
        reused == is_current(table::lookup(old(snapshots)@, id@), signature, dirty),
        final(snapshots)@ == (if reused {
            old(snapshots)@.insert(id@, (CompleteSnapshot { signature, rect }))
        } else {
            old(snapshots)@.remove(id@)
        }),
{
    if !dirty {
        match snapshots.get(id) {
            Some(existing) => {
                if existing.signature == signature {
                    snapshots.insert(id, CompleteSnapshot { signature, rect });
                    return true;
                }
            },
            None => {},
        }
    }
    snapshots.remove(id);
    false
}

/// Keeps a picture that was just taken.
pub fn store_complete_snapshot(
    snapshots: &mut NameTable<CompleteSnapshot>,
    id: &str,
    signature: u64,
    rect: LogicalRect,
)
    ensures
        final(snapshots)@ == old(snapshots)@.insert(id@, (CompleteSnapshot { signature, rect })),
{
    snapshots.insert(id, CompleteSnapshot { signature, rect });
}

/// A picture that was just taken is used again until the window changes.
pub proof fn law_taken_picture_is_current(
    snapshots: Map<Seq<char>, CompleteSnapshot>,
    id: Seq<char>,
    signature: u64,
    rect: LogicalRect,
)
    ensures
        is_current(
            table::lookup(snapshots.insert(id, (CompleteSnapshot { signature, rect })), id),
            signature,
            false,
        ),
{
}

/// The picture for the time when a window closes is taken when there is none or when the
/// client's part has another size. `client_rect` is `None` for a window without a
/// decoration.
pub fn should_seed_close_snapshot(
    client_rect: Option<LogicalRect>,
    live: Option<LogicalRect>,
) -> (r: bool)
    ensures
        r == (client_rect is Some && (live is None || live->0.width != client_rect->0.width
            || live->0.height != client_rect->0.height)),
{
    match client_rect {
        Some(client_rect) => match live {
            Some(live) => live.width != client_rect.width || live.height != client_rect.height,
            None => true,
        },
        None => false,
    }
}

/// What the decoration of a window consists of, each part with its place in the order.
pub struct DecorationParts<E> {
    /// Effects drawn from captured pictures; the flag tells that the effect shows what is
    /// behind the window.
    pub effects: Vec<(usize, E, bool)>,
    /// Effects that are drawn from the frame itself.
    pub framebuffer_effects: Vec<(usize, E)>,
    /// Backgrounds; the flag tells that it shows what is behind the window.
    pub backgrounds: Vec<(usize, E, bool)>,
    pub icons: Vec<(usize, E)>,
    pub texts: Vec<(usize, E)>,
}

/// Those items whose flag is `wanted`, as `kind`.
pub open spec fn flagged<E>(
    items: Seq<(usize, E, bool)>,
    wanted: bool,
    kind: TtyElementKind,
) -> Seq<(usize, TtyRenderElement<E>)>
    decreases items.len(),
{
    if items.len() == 0 {
        Seq::empty()
    } else {
        let rest = flagged(items.drop_last(), wanted, kind);
        if items.last().2 == wanted {
            rest.push((items.last().0, TtyRenderElement { kind, element: items.last().1 }))
        } else {
            rest
        }
    }
}

fn append_flagged<E>(
    ui: &mut Vec<(usize, TtyRenderElement<E>)>,
    backdrop: &mut Vec<(usize, TtyRenderElement<E>)>,
    items: Vec<(usize, E, bool)>,
    kind: TtyElementKind,
)
    ensures
        final(ui)@ == old(ui)@ + flagged(items@, false, kind),
        final(backdrop)@ == old(backdrop)@ + flagged(items@, true, kind),
{
    let ghost all = items@;
    let ghost ui_before = ui@;
    let ghost backdrop_before = backdrop@;
    assert(all.take(0) =~= Seq::<(usize, E, bool)>::empty());
    for item in it: items
        invariant
            it.seq() == all,
            ui@ =~= ui_before + flagged(all.take(it.index() as int), false, kind),
            backdrop@ =~= backdrop_before + flagged(all.take(it.index() as int), true, kind),
    {
        assert(all.take(it.index() + 1).drop_last() =~= all.take(it.index() as int));
        let (place, element, shows_behind): (usize, E, bool) = item;
        if shows_behind {
            backdrop.push((place, TtyRenderElement { kind, element }));
        } else {
            ui.push((place, TtyRenderElement { kind, element }));
        }
    }
    assert(all.take(all.len() as int) =~= all);
}

/// The part of a decoration that stands in front of what shows through the window.
pub open spec fn decoration_ui<E>(parts: DecorationParts<E>, identity: bool) -> Seq<
    TtyRenderElement<E>,
> {
    order::elements_by_order(
        flagged(parts.effects@, false, scene::backdrop_kind(identity)) + flagged(
            parts.backgrounds@,
            false,
            scene::decoration_kind(identity),
        ) + scene::all_ordered_as(parts.icons@, scene::text_kind(identity))
            + scene::all_ordered_as(parts.texts@, scene::text_kind(identity)),
    )
}

/// The part of a decoration that shows what is behind the window.
pub open spec fn decoration_backdrop<E>(parts: DecorationParts<E>, identity: bool) -> Seq<
    TtyRenderElement<E>,
> {
    order::elements_by_order(
        flagged(parts.effects@, true, scene::backdrop_kind(identity)) + scene::all_ordered_as(
            parts.framebuffer_effects@,
            scene::decoration_kind(identity),
        ) + flagged(parts.backgrounds@, true, scene::decoration_kind(identity)),
    )
}

/// Puts the decoration of a window in order. The elements stay as they are for a picture of
/// the window and are moved with it otherwise.
pub fn decoration_elements<E>(parts: DecorationParts<E>, identity: bool) -> (r: (
    Vec<TtyRenderElement<E>>,
    Vec<TtyRenderElement<E>>,
))
    ensures
        r.0@ == decoration_ui(parts, identity),
        r.1@ == decoration_backdrop(parts, identity),
{
    let mut ui: Vec<(usize, TtyRenderElement<E>)> = Vec::new();
    let mut backdrop: Vec<(usize, TtyRenderElement<E>)> = Vec::new();
    append_flagged(&mut ui, &mut backdrop, parts.effects, scene::backdrop_kind(identity));
    scene::append_ordered(
        &mut backdrop,
        parts.framebuffer_effects,
        scene::decoration_kind(identity),
    );
    append_flagged(&mut ui, &mut backdrop, parts.backgrounds, scene::decoration_kind(identity));
    scene::append_ordered(&mut ui, parts.icons, scene::text_kind(identity));
    scene::append_ordered(&mut ui, parts.texts, scene::text_kind(identity));
    assert(ui@ =~= flagged(parts.effects@, false, scene::backdrop_kind(identity)) + flagged(
        parts.backgrounds@,
        false,
        scene::decoration_kind(identity),
    ) + scene::all_ordered_as(parts.icons@, scene::text_kind(identity)) + scene::all_ordered_as(
        parts.texts@,
        scene::text_kind(identity),
    ));
    assert(backdrop@ =~= flagged(parts.effects@, true, scene::backdrop_kind(identity))
        + scene::all_ordered_as(parts.framebuffer_effects@, scene::decoration_kind(identity))
        + flagged(parts.backgrounds@, true, scene::decoration_kind(identity)));
    (order::elements_in_order(ui), order::elements_in_order(backdrop))
}

/// The decoration of a window in a frame; none until it may be drawn. In a picture of the
/// window it stays as it is: it is the picture that is moved and scaled.
pub fn window_decoration<E>(
    decoration_ready: bool,
    use_full_snapshot: bool,
    identity: bool,
    parts: DecorationParts<E>,
) -> (r: (Vec<TtyRenderElement<E>>, Vec<TtyRenderElement<E>>))
    ensures
        r.0@ == (if decoration_ready {
            decoration_ui(parts, use_full_snapshot || identity)
        } else {
            Seq::empty()
        }),
        r.1@ == (if decoration_ready {
            decoration_backdrop(parts, use_full_snapshot || identity)
        } else {
            Seq::empty()
        }),
{
    if decoration_ready {
        decoration_elements(parts, use_full_snapshot || identity)
    } else {
        (Vec::new(), Vec::new())
    }
}

/// The items, all with the same flag.
pub open spec fn all_flagged<E>(items: Seq<(usize, E)>, flag: bool) -> Seq<(usize, E, bool)> {
    items.map_values(|item: (usize, E)| (item.0, item.1, flag))
}

fn flag_all<E>(items: Vec<(usize, E)>, flag: bool) -> (out: Vec<(usize, E, bool)>)
    ensures
        out@ == all_flagged(items@, flag),
{
    let ghost all = items@;
    let mut out: Vec<(usize, E, bool)> = Vec::new();
    for item in it: items
        invariant
            it.seq() == all,
            out@ =~= all_flagged(all.take(it.index() as int), flag),
    {
        let (order, element): (usize, E) = item;
        out.push((order, element, flag));
    }
    assert(all.take(all.len() as int) =~= all);
    out
}

/// The effects of a decoration that are drawn from captured pictures, together with those
/// behind the region that the client asked for, which all show what is behind the window.
pub fn captured_effects<E>(
    effects: Vec<(usize, E, bool)>,
    region_effects: Vec<(usize, E)>,
) -> (all: Vec<(usize, E, bool)>)
    ensures
        all@ == effects@ + all_flagged(region_effects@, true),
{
    let mut all: Vec<(usize, E, bool)> = effects;
    let mut behind: Vec<(usize, E, bool)> = flag_all(region_effects, true);
    all.append(&mut behind);
    all
}

/// The decoration as effects that sample all of the window see it: nothing of it is drawn from
/// the frame itself, and no background shows what is behind the window.
pub fn source_decoration<E>(
    effects: Vec<(usize, E, bool)>,
    region_effects: Vec<(usize, E)>,
    backgrounds: Vec<(usize, E)>,
    icons: Vec<(usize, E)>,
    texts: Vec<(usize, E)>,
) -> (parts: DecorationParts<E>)
    ensures
        parts.effects@ == effects@ + all_flagged(region_effects@, true),
        parts.framebuffer_effects@ == Seq::<(usize, E)>::empty(),
        parts.backgrounds@ == all_flagged(backgrounds@, false),
        parts.icons == icons,
        parts.texts == texts,
{
    DecorationParts {
        effects: captured_effects(effects, region_effects),
        framebuffer_effects: Vec::new(),
        backgrounds: flag_all(backgrounds, false),
        icons,
        texts,
    }
}

/// Where the background effect that is configured for all windows is drawn from.
#[derive(Clone, Copy, Debug, PartialEq, Eq, Structural)]
pub enum WindowBackgroundPath {
    /// No such effect is configured.
    Nothing,
    Texture,
    Framebuffer,
}

/// In a picture of the window there is no frame to draw from, and some effects cannot be
/// drawn from it at all.
pub fn window_background_path(
    configured: bool,
    supports_framebuffer: bool,
    use_full_snapshot: bool,
) -> (path: WindowBackgroundPath)
    ensures
        path == (if !configured {
            WindowBackgroundPath::Nothing
        } else if use_full_snapshot || !supports_framebuffer {
            WindowBackgroundPath::Texture
        } else {
            WindowBackgroundPath::Framebuffer
        }),
{
    if !configured {
        WindowBackgroundPath::Nothing
    } else if use_full_snapshot || !supports_framebuffer {
        WindowBackgroundPath::Texture
    } else {
        WindowBackgroundPath::Framebuffer
    }
}

/// The scene that a picture of a whole window is taken of.
pub fn full_snapshot_scene<E>(
    client: Vec<TtyRenderElement<E>>,
    ui: Vec<TtyRenderElement<E>>,
    backdrop: Vec<TtyRenderElement<E>>,
) -> (elements: Vec<TtyRenderElement<E>>)
    ensures
        elements@ == client@ + ui@ + backdrop@,
{
    let mut elements: Vec<TtyRenderElement<E>> = client;
    let mut ui: Vec<TtyRenderElement<E>> = ui;
    let mut backdrop: Vec<TtyRenderElement<E>> = backdrop;
    elements.append(&mut ui);
    elements.append(&mut backdrop);
    elements
}

/// How the client's part of a window is drawn.
#[derive(Clone, Copy, Debug, PartialEq, Eq, Structural)]
pub enum ClientPath {
    Snapshot,
    Clipped,
    Plain,
}

/// A scaled window is drawn from its picture; otherwise a decoration that says where the
/// client's part is clips it.
pub fn client_path(use_full_snapshot: bool, has_content_clip: bool) -> (path: ClientPath)
    ensures
        path == (if use_full_snapshot {
            ClientPath::Snapshot
        } else if has_content_clip {
            ClientPath::Clipped
        } else {
            ClientPath::Plain
        }),
{
    if use_full_snapshot {
        ClientPath::Snapshot
    } else if has_content_clip {
        ClientPath::Clipped
    } else {
        ClientPath::Plain
    }
}

/// The client's part of a window.
pub enum ClientContent<E> {
    /// The picture of the whole window, if it could be taken; decoration and all.
    Snapshot(Option<E>),
    /// The surfaces, clipped to the place that the decoration gives them.
    Clipped(Vec<WindowClipElement<E>>),
    /// The surfaces as they are.
    Plain(Vec<E>),
}

pub open spec fn client_elements_of<E>(content: ClientContent<E>, identity: bool) -> Seq<
    TtyRenderElement<E>,
> {
    match content {
        ClientContent::Snapshot(Some(element)) => seq![
            TtyRenderElement { kind: scene::snapshot_kind(identity), element },
        ],
        ClientContent::Snapshot(None) => Seq::empty(),
        ClientContent::Clipped(list) => list@.map_values(
            |element: WindowClipElement<E>| clip::placed_surface(element, identity),
        ),
        ClientContent::Plain(list) => scene::all_as(list@, scene::window_kind(identity)),
    }
}

pub fn client_elements<E>(content: ClientContent<E>, identity: bool) -> (elements: Vec<
    TtyRenderElement<E>,
>)
    ensures
        elements@ == client_elements_of(content, identity),
{
    match content {
        ClientContent::Snapshot(picture) => {
            let mut elements: Vec<TtyRenderElement<E>> = Vec::new();
            match picture {
                Some(element) => {
                    elements.push(
                        TtyRenderElement { kind: scene::snapshot_kind(identity), element },
                    );
                },
                None => {},
            }
            assert(elements@ =~= client_elements_of(ClientContent::Snapshot(picture), identity));
            elements
        },
        ClientContent::Clipped(list) => clip::live_client_elements(list, identity),
        ClientContent::Plain(list) => scene::transform_window_elements(list, identity),
    }
}

/// The window without its popups, as effects that sample all of it see it: the root surface
/// and, once the decoration may be drawn, the decoration.
pub fn full_window_source<T>(
    needed: bool,
    decoration_ready: bool,
    root_source: Vec<T>,
    ui: Vec<T>,
    backdrop: Vec<T>,
) -> (elements: Vec<T>)
    ensures
        elements@ == (if !needed {
            Seq::empty()
        } else if !decoration_ready {
            root_source@
        } else {
            root_source@ + ui@ + backdrop@
        }),
{
    if !needed {
        return Vec::new();
    }
    let mut elements: Vec<T> = root_source;
    if decoration_ready {
        let mut ui: Vec<T> = ui;
        let mut backdrop: Vec<T> = backdrop;
        elements.append(&mut ui);
        elements.append(&mut backdrop);
    }
    elements
}

/// The popups of a window. Their effects cannot be moved and scaled with a window, so popups
/// are composed with them only where the window is neither moved nor scaled; otherwise they
/// are drawn as they are and follow the window.
pub fn window_popups<E>(
    identity: bool,
    composed: Vec<TtyRenderElement<E>>,
    raw: Vec<E>,
) -> (out: Vec<TtyRenderElement<E>>)
    ensures
        out@ == (if identity {
            composed@
        } else {
            scene::all_as(raw@, TtyElementKind::TransformedWindow)
        }),
{
    if identity {
        composed
    } else {
        scene::transform_window_elements(raw, false)
    }
}

/// What a window shows without its popups: the client's part in front of the decoration. A
/// picture of the window has the decoration in it.
pub fn window_body<T>(client: Vec<T>, ui: Vec<T>, backdrop: Vec<T>, use_full_snapshot: bool) -> (body:
    Vec<T>)
    ensures
        body@ == (if use_full_snapshot {
            client@
        } else {
            client@ + ui@ + backdrop@
        }),
{
    let mut body: Vec<T> = client;
    if !use_full_snapshot {
        let mut ui: Vec<T> = ui;
        let mut backdrop: Vec<T> = backdrop;
        body.append(&mut ui);
        body.append(&mut backdrop);
    }
    body
}

/// What a window shows with its popups: what replaces it instead of its body, if an effect
/// does. Surfaces other than the root are no part of a picture of the window, nor of what
/// replaces it, so they are shown apart.
pub open spec fn window_current<T>(
    popups: Seq<T>,
    non_root: Seq<T>,
    body: Seq<T>,
    replacement: Option<Seq<T>>,
    use_full_snapshot: bool,
) -> Seq<T> {
    popups + (if use_full_snapshot || replacement is Some {
        non_root
    } else {
        Seq::empty()
    }) + (match replacement {
        Some(elements) => elements,
        None => body,
    })
}

pub open spec fn view_list<T>(list: Option<Vec<T>>) -> Option<Seq<T>> {
    match list {
        Some(list) => Some(list@),
        None => None,
    }
}

pub fn current_window_elements<T>(
    popups: Vec<T>,
    non_root: Vec<T>,
    body: Vec<T>,
    replacement: Option<Vec<T>>,
    use_full_snapshot: bool,
) -> (elements: Vec<T>)
    ensures
        elements@ == window_current(
            popups@,
            non_root@,
            body@,
            view_list(replacement),
            use_full_snapshot,
        ),
{
    let mut elements: Vec<T> = popups;
    let mut non_root: Vec<T> = non_root;
    if use_full_snapshot {
        elements.append(&mut non_root);
        match replacement {
            Some(mut replacement) => {
                elements.append(&mut replacement);
            },
            None => {
                let mut body: Vec<T> = body;
                elements.append(&mut body);
            },
        }
    } else {
        match replacement {
            Some(mut replacement) => {
                elements.append(&mut non_root);
                elements.append(&mut replacement);
            },
            None => {
                let mut body: Vec<T> = body;
                elements.append(&mut body);
            },
        }
    }
    elements
}

/// What the effects of a window can be drawn from, as far as it has been put together.
pub struct WindowPictures<'a, T> {
    pub root_surface: &'a [T],
    /// See `full_window_source`.
    pub full_window: &'a [T],
    /// See `window_body`.
    pub body: &'a [T],
    /// See `current_window_elements`; an effect that replaces the window is drawn before
    /// this is known.
    pub current: &'a [T],
}

impl<'a, T> WindowPictures<'a, T> {
    pub open spec fn picture(self, source: SlotSource) -> Seq<T> {
        match source {
            SlotSource::FullWindow => self.full_window@,
            SlotSource::RootSurface => self.root_surface@,
            SlotSource::Body => self.body@,
            SlotSource::Current => self.current@,
        }
    }
}

/// The area that an effect of a window covers and the elements that it is drawn from.
pub fn effect_source<'a, T>(
    pictures: &WindowPictures<'a, T>,
    placement: SlotPlacement,
    input: EffectInput,
) -> (r: (SlotArea, &'a [T]))
    ensures
        r.0 == effects::source_of(placement, input).0,
        r.1@ == pictures.picture(effects::source_of(placement, input).1),
{
    let (area, source) = effects::slot_source(placement, input);
    let elements: &'a [T] = match source {
        SlotSource::FullWindow => pictures.full_window,
        SlotSource::RootSurface => pictures.root_surface,
        SlotSource::Body => pictures.body,
        SlotSource::Current => pictures.current,
    };
    (area, elements)
}

/// A window among its effects: those in front, the window, those behind its root surface,
/// and those behind all of it.
pub fn window_with_effects<T>(
    in_front: Vec<T>,
    current: Vec<T>,
    behind_root_surface: Vec<T>,
    behind: Vec<T>,
) -> (elements: Vec<T>)
    ensures
        elements@ == in_front@ + current@ + behind_root_surface@ + behind@,
{
    let mut elements: Vec<T> = in_front;
    let mut current: Vec<T> = current;
    let mut behind_root_surface: Vec<T> = behind_root_surface;
    let mut behind: Vec<T> = behind;
    elements.append(&mut current);
    elements.append(&mut behind_root_surface);
    elements.append(&mut behind);
    elements
}

/// A window that alone makes up the frame: its popups and its surfaces, as they are.
pub fn fullscreen_window_elements<E>(popups: Vec<E>, surfaces: Vec<E>) -> (elements: Vec<
    TtyRenderElement<E>,
>)
    ensures
        elements@ == scene::all_as(popups@, TtyElementKind::Window) + scene::all_as(
            surfaces@,
            TtyElementKind::Window,
        ),
{
    let mut elements: Vec<TtyRenderElement<E>> = scene::transform_window_elements(popups, true);
    let mut surfaces: Vec<TtyRenderElement<E>> = scene::transform_window_elements(surfaces, true);
    elements.append(&mut surfaces);
    elements
}

/// A window is drawn exactly if it is in the layout with a decoration, may be rendered, is not
/// closing, and has something to show.
pub proof fn law_which_windows_are_drawn(facts: &WindowFacts, r: bool)
    requires
        call_ensures(window_is_drawn, (facts,), r),
    ensures
        r ==> facts.in_layout,
        r ==> facts.has_decoration,
        r ==> facts.render_allowed,
        r ==> !facts.closing,
        r ==> facts.surface_count > 0,
        facts.in_layout && facts.has_decoration && facts.render_allowed && !facts.closing
            && facts.surface_count > 0 ==> r,
{
}

/// A window that is drawn from a picture has moved if it was not drawn so before, or differs.
pub proof fn law_moved_windows(known_before: bool, differs: bool, moved: bool)
    requires
        call_ensures(snapshot_moved, (known_before, differs), moved),
    ensures
        !known_before ==> moved,
        differs ==> moved,
        known_before && !differs ==> !moved,
{
}

/// A window is drawn from a picture exactly if it is scaled. All of it is painted again exactly
/// if that is not how it was drawn last, or if its picture no longer shows what it shows. What
/// is known of other windows does not change.
pub proof fn law_visits_of_windows(
    sets: &mut SnapshotSets,
    totals: &mut PassTotals,
    id: &str,
    scaled: bool,
    moved: bool,
    visit: WindowVisit,
    other: Seq<char>,
)
    requires
        call_ensures(begin_window, (sets, totals, id, scaled, moved), visit),
    ensures
        visit.use_full_snapshot == scaled,
        visit.dirty == old(sets).dirty@.contains(id@),
        scaled && !old(sets).transform@.contains(id@) ==> visit.repaint,
        !scaled && old(sets).transform@.contains(id@) ==> visit.repaint,
        scaled && old(sets).dirty@.contains(id@) ==> visit.repaint,
        !scaled && !old(sets).transform@.contains(id@) ==> !visit.repaint,
        scaled && old(sets).transform@.contains(id@) && !old(sets).dirty@.contains(id@)
            ==> !visit.repaint,
        final(sets).transform@.contains(id@) == scaled,
        final(sets).dirty@ == old(sets).dirty@,
        scaled && moved ==> final(sets).changed@.contains(id@),
        !(scaled && moved) ==> final(sets).changed@ == old(sets).changed@,
        other != id@ ==> final(sets).transform@.contains(other) == old(sets).transform@.contains(
            other,
        ) && final(sets).changed@.contains(other) == old(sets).changed@.contains(other),
        old(totals).snapshot_windows < usize::MAX ==> final(totals).snapshot_windows == old(
            totals).snapshot_windows + (if scaled {
            1int
        } else {
            0
        }),
        old(totals).damaged_windows < usize::MAX ==> final(totals).damaged_windows == old(
            totals).damaged_windows + (if scaled && old(sets).dirty@.contains(id@) {
            1int
        } else {
            0
        }),
        final(totals).had_snapshot_damage == (old(totals).had_snapshot_damage || scaled && old(
            sets).dirty@.contains(id@)),
{
}

/// A window that has been drawn is up to date and ready; others stay as they are.
pub proof fn law_drawn_windows_are_ready(
    sets: &mut SnapshotSets,
    ready: &mut NameSet,
    id: &str,
    first_time: bool,
    other: Seq<char>,
)
    requires
        call_ensures(finish_window, (sets, ready, id), first_time),
    ensures
        !final(sets).dirty@.contains(id@),
        final(ready)@.contains(id@),
        first_time <==> !old(ready)@.contains(id@),
        final(sets).transform@ == old(sets).transform@,
        final(sets).changed@ == old(sets).changed@,
        other != id@ ==> final(ready)@.contains(other) == old(ready)@.contains(other) && final(
            sets).dirty@.contains(other) == old(sets).dirty@.contains(other),
{
}

/// The kept picture of a window is used exactly if it shows what the window shows; it then moves
/// along with the window. Otherwise it is given up. Pictures of other windows stay.
pub proof fn law_complete_snapshots(
    snapshots: &mut NameTable<CompleteSnapshot>,
    id: &str,
    signature: u64,
    rect: LogicalRect,
    dirty: bool,
    reused: bool,
    other: Seq<char>,
)
    requires
        call_ensures(reuse_complete_snapshot, (snapshots, id, signature, rect, dirty), reused),
    ensures
        dirty ==> !reused,
        !old(snapshots)@.contains_key(id@) ==> !reused,
        old(snapshots)@.contains_key(id@) && old(snapshots)@[id@].signature != signature
            ==> !reused,
        !dirty && old(snapshots)@.contains_key(id@) && old(snapshots)@[id@].signature == signature
            ==> reused,
        reused ==> final(snapshots)@.contains_key(id@) && final(snapshots)@[id@].rect == rect
            && final(snapshots)@[id@].signature == signature,
        !reused ==> !final(snapshots)@.contains_key(id@),
        other != id@ ==> final(snapshots)@.contains_key(other) == old(snapshots)@.contains_key(
            other,
        ) && final(snapshots)@[other] == old(snapshots)@[other],
{
}

/// A picture that was taken is kept with what it shows and where.
pub proof fn law_stored_complete_snapshots(
    snapshots: &mut NameTable<CompleteSnapshot>,
    id: &str,
    signature: u64,
    rect: LogicalRect,
    other: Seq<char>,
)
    requires
        call_ensures(store_complete_snapshot, (snapshots, id, signature, rect), ()),
    ensures
        final(snapshots)@.contains_key(id@),
        final(snapshots)@[id@].signature == signature,
        final(snapshots)@[id@].rect == rect,
        other != id@ ==> final(snapshots)@.contains_key(other) == old(snapshots)@.contains_key(
            other,
        ) && final(snapshots)@[other] == old(snapshots)@[other],
{
}

/// A picture for closing is wanted of a decorated window that has none of its present size;
/// where it stands does not matter.
pub proof fn law_close_snapshots_follow_the_size(
    client_rect: Option<LogicalRect>,
    live: Option<LogicalRect>,
    r: bool,
)
    requires
        call_ensures(should_seed_close_snapshot, (client_rect, live), r),
    ensures
        client_rect is None ==> !r,
        client_rect is Some && live is None ==> r,
        client_rect is Some && live is Some && client_rect->0.width == live->0.width
            && client_rect->0.height == live->0.height ==> !r,
        client_rect is Some && live is Some && client_rect->0.width != live->0.width ==> r,
        client_rect is Some && live is Some && client_rect->0.height != live->0.height ==> r,
{
}

proof fn lemma_flagged<E>(
    items: Seq<(usize, E, bool)>,
    wanted: bool,
    kind: TtyElementKind,
    i: int,
) -> (k: int)
    requires
        0 <= i < items.len(),
        items[i].2 == wanted,
    ensures
        0 <= k < flagged(items, wanted, kind).len(),
        flagged(items, wanted, kind)[k] == (
            items[i].0,
            TtyRenderElement { kind, element: items[i].1 },
        ),
    decreases items.len(),
{
    if i == items.len() - 1 {
        flagged(items.drop_last(), wanted, kind).len() as int
    } else {
        assert(items.drop_last()[i] == items[i]);
        lemma_flagged(items.drop_last(), wanted, kind, i)
    }
}

/// Each part of a decoration stands where its flag says and nothing is lost: effects and
/// backgrounds that show what is behind the window are among its backdrops, as are effects drawn
/// from the frame; all else stands in front of them.
pub proof fn law_parts_of_a_decoration<E>(
    parts: DecorationParts<E>,
    identity: bool,
    r: (Vec<TtyRenderElement<E>>, Vec<TtyRenderElement<E>>),
    i: int,
)
    requires
        call_ensures(decoration_elements::<E>, (parts, identity), r),
        0 <= i,
    ensures
        r.0@.len() + r.1@.len() == parts.effects@.len() + parts.framebuffer_effects@.len()
            + parts.backgrounds@.len() + parts.icons@.len() + parts.texts@.len(),
        i < parts.effects@.len() ==> {
            let shown = TtyRenderElement {
                kind: if identity {
                    TtyElementKind::RelocatedBackdrop
                } else {
                    TtyElementKind::TransformedBackdrop
                },
                element: parts.effects@[i].1,
            };
            if parts.effects@[i].2 {
                r.1@.contains(shown)
            } else {
                r.0@.contains(shown)
            }
        },
        i < parts.backgrounds@.len() ==> {
            let shown = TtyRenderElement {
                kind: if identity {
                    TtyElementKind::RelocatedDecoration
                } else {
                    TtyElementKind::TransformedDecoration
                },
                element: parts.backgrounds@[i].1,
            };
            if parts.backgrounds@[i].2 {
                r.1@.contains(shown)
            } else {
                r.0@.contains(shown)
            }
        },
        i < parts.framebuffer_effects@.len() ==> r.1@.contains(
            (TtyRenderElement {
                kind: if identity {
                    TtyElementKind::RelocatedDecoration
                } else {
                    TtyElementKind::TransformedDecoration
                },
                element: parts.framebuffer_effects@[i].1,
            }),
        ),
        i < parts.icons@.len() ==> r.0@.contains(
            (TtyRenderElement {
                kind: if identity {
                    TtyElementKind::RelocatedText
                } else {
                    TtyElementKind::TransformedText
                },
                element: parts.icons@[i].1,
            }),
        ),
        i < parts.texts@.len() ==> r.0@.contains(
            (TtyRenderElement {
                kind: if identity {
                    TtyElementKind::RelocatedText
                } else {
                    TtyElementKind::TransformedText
                },
                element: parts.texts@[i].1,
            }),
        ),
{
    let bk = scene::backdrop_kind(identity);
    let dk = scene::decoration_kind(identity);
    let tk = scene::text_kind(identity);
    let a = flagged(parts.effects@, false, bk);
    let b = flagged(parts.backgrounds@, false, dk);
    let c = scene::all_ordered_as(parts.icons@, tk);
    let d = scene::all_ordered_as(parts.texts@, tk);
    let ui = a + b + c + d;
    let e = flagged(parts.effects@, true, bk);
    let f = scene::all_ordered_as(parts.framebuffer_effects@, dk);
    let g = flagged(parts.backgrounds@, true, dk);
    let behind = e + f + g;
    lemma_flags_split(parts.effects@, bk);
    lemma_flags_split(parts.backgrounds@, dk);
    let any = TtyRenderElement { kind: bk, element: arbitrary() };
    order::law_ordered_elements_are_those_given(ui, any);
    order::law_ordered_elements_are_those_given(behind, any);
    if i < parts.effects@.len() {
        let shown = TtyRenderElement { kind: bk, element: parts.effects@[i].1 };
        if parts.effects@[i].2 {
            let k = lemma_flagged(parts.effects@, true, bk, i);
            assert(behind[k].1 == shown);
            order::law_ordered_elements_are_those_given(behind, shown);
        } else {
            let k = lemma_flagged(parts.effects@, false, bk, i);
            assert(ui[k].1 == shown);
            order::law_ordered_elements_are_those_given(ui, shown);
        }
    }
    if i < parts.backgrounds@.len() {
        let shown = TtyRenderElement { kind: dk, element: parts.backgrounds@[i].1 };
        if parts.backgrounds@[i].2 {
            let k = lemma_flagged(parts.backgrounds@, true, dk, i);
            assert(behind[e.len() + f.len() + k].1 == shown);
            order::law_ordered_elements_are_those_given(behind, shown);
        } else {
            let k = lemma_flagged(parts.backgrounds@, false, dk, i);
            assert(ui[a.len() + k].1 == shown);
            order::law_ordered_elements_are_those_given(ui, shown);
        }
    }
    if i < parts.framebuffer_effects@.len() {
        let shown = TtyRenderElement { kind: dk, element: parts.framebuffer_effects@[i].1 };
        assert(behind[e.len() + i].1 == shown);
        order::law_ordered_elements_are_those_given(behind, shown);
    }
    if i < parts.icons@.len() {
        let shown = TtyRenderElement { kind: tk, element: parts.icons@[i].1 };
        assert(ui[a.len() + b.len() + i].1 == shown);
        order::law_ordered_elements_are_those_given(ui, shown);
    }
    if i < parts.texts@.len() {
        let shown = TtyRenderElement { kind: tk, element: parts.texts@[i].1 };
        assert(ui[a.len() + b.len() + c.len() + i].1 == shown);
        order::law_ordered_elements_are_those_given(ui, shown);
    }
}

proof fn lemma_flags_split<E>(items: Seq<(usize, E, bool)>, kind: TtyElementKind)
    ensures
        flagged(items, true, kind).len() + flagged(items, false, kind).len() == items.len(),
    decreases items.len(),
{
    if items.len() > 0 {
        lemma_flags_split(items.drop_last(), kind);
    }
}

/// In a decoration what has the lower number stands in front, whatever it is; an icon goes
/// before a text, a background before both, and an effect before that only among equal numbers.
pub proof fn law_order_within_a_decoration<E>(
    parts: DecorationParts<E>,
    identity: bool,
    r: (Vec<TtyRenderElement<E>>, Vec<TtyRenderElement<E>>),
    i: int,
    j: int,
)
    requires
        call_ensures(decoration_elements::<E>, (parts, identity), r),
        0 <= i < parts.backgrounds@.len(),
        !parts.backgrounds@[i].2,
        0 <= j < parts.texts@.len(),
    ensures
        parts.backgrounds@[i].0 <= parts.texts@[j].0 ==> exists|p: int, q: int|
            0 <= p < q < r.0@.len() && (#[trigger] r.0@[p]).element == parts.backgrounds@[i].1
                && (#[trigger] r.0@[q]).element == parts.texts@[j].1,
        parts.texts@[j].0 < parts.backgrounds@[i].0 ==> exists|p: int, q: int|
            0 <= p < q < r.0@.len() && (#[trigger] r.0@[p]).element == parts.texts@[j].1 && (
            #[trigger] r.0@[q]).element == parts.backgrounds@[i].1,
{
    let dk = scene::decoration_kind(identity);
    let tk = scene::text_kind(identity);
    let a = flagged(parts.effects@, false, scene::backdrop_kind(identity));
    let b = flagged(parts.backgrounds@, false, dk);
    let c = scene::all_ordered_as(parts.icons@, tk);
    let d = scene::all_ordered_as(parts.texts@, tk);
    let ui = a + b + c + d;
    let k = lemma_flagged(parts.backgrounds@, false, dk, i);
    let x = a.len() + k;
    let y = a.len() + b.len() + c.len() + j;
    assert(ui[x].1.element == parts.backgrounds@[i].1 && ui[x].0 == parts.backgrounds@[i].0);
    assert(ui[y].1.element == parts.texts@[j].1 && ui[y].0 == parts.texts@[j].0);
    let elements = order::elements_by_order(ui);
    assert(r.0@ == elements);
    if parts.backgrounds@[i].0 <= parts.texts@[j].0 {
        order::law_elements_stand_by_order(ui, x, y);
        let (p, q) = choose|p: int, q: int|
            0 <= p < q < ui.len() && #[trigger] order::elements_by_order(ui)[p] == ui[x].1
                && #[trigger] order::elements_by_order(ui)[q] == ui[y].1;
        assert(r.0@[p].element == parts.backgrounds@[i].1 && r.0@[q].element
            == parts.texts@[j].1);
    } else {
        order::law_elements_stand_by_order(ui, y, x);
        let (p, q) = choose|p: int, q: int|
            0 <= p < q < ui.len() && #[trigger] order::elements_by_order(ui)[p] == ui[y].1
                && #[trigger] order::elements_by_order(ui)[q] == ui[x].1;
        assert(r.0@[p].element == parts.texts@[j].1 && r.0@[q].element
            == parts.backgrounds@[i].1);
    }
}

/// No decoration is drawn until it may be. In a picture of the window it is the same as for a
/// window at rest.
pub proof fn law_decorations_wait_and_rest<E>(
    ready: bool,
    use_full_snapshot: bool,
    identity: bool,
    parts: DecorationParts<E>,
    r: (Vec<TtyRenderElement<E>>, Vec<TtyRenderElement<E>>),
    at_rest: (Vec<TtyRenderElement<E>>, Vec<TtyRenderElement<E>>),
    plain: (Vec<TtyRenderElement<E>>, Vec<TtyRenderElement<E>>),
)
    requires
        call_ensures(
            window_decoration::<E>,
            (ready, use_full_snapshot, identity, parts),
            r,
        ),
        call_ensures(decoration_elements::<E>, (parts, true), at_rest),
        call_ensures(decoration_elements::<E>, (parts, identity), plain),
    ensures
        !ready ==> r.0@.len() == 0 && r.1@.len() == 0,
        ready && use_full_snapshot ==> r.0@ == at_rest.0@ && r.1@ == at_rest.1@,
        ready && !use_full_snapshot ==> r.0@ == plain.0@ && r.1@ == plain.1@,
{
}

/// All captured effects are kept; those of a region come last and show what is behind.
pub proof fn law_captured_effects_are_joined<E>(
    effects: Vec<(usize, E, bool)>,
    region: Vec<(usize, E)>,
    all: Vec<(usize, E, bool)>,
    i: int,
)
    requires
        call_ensures(captured_effects::<E>, (effects, region), all),
    ensures
        all@.len() == effects@.len() + region@.len(),
        0 <= i < effects@.len() ==> all@[i] == effects@[i],
        0 <= i < region@.len() ==> all@[effects@.len() + i] == (region@[i].0, region@[i].1, true),
{
}

/// As a source of effects, a decoration has nothing that is drawn from the frame, and its
/// backgrounds show nothing of what is behind the window; all else is there.
pub proof fn law_decoration_as_a_source<E>(
    effects: Vec<(usize, E, bool)>,
    region: Vec<(usize, E)>,
    backgrounds: Vec<(usize, E)>,
    icons: Vec<(usize, E)>,
    texts: Vec<(usize, E)>,
    parts: DecorationParts<E>,
    i: int,
)
    requires
        call_ensures(source_decoration::<E>, (effects, region, backgrounds, icons, texts), parts),
    ensures
        parts.framebuffer_effects@.len() == 0,
        parts.effects@.len() == effects@.len() + region@.len(),
        0 <= i < effects@.len() ==> parts.effects@[i] == effects@[i],
        0 <= i < region@.len() ==> parts.effects@[effects@.len() + i] == (
            region@[i].0,
            region@[i].1,
            true,
        ),
        parts.backgrounds@.len() == backgrounds@.len(),
        0 <= i < backgrounds@.len() ==> parts.backgrounds@[i] == (
            backgrounds@[i].0,
            backgrounds@[i].1,
            false,
        ),
        parts.icons@ == icons@,
        parts.texts@ == texts@,
{
}

/// A configured background effect is drawn from the frame exactly if it can be and the window is
/// not drawn from a picture.
pub proof fn law_window_background_paths(
    configured: bool,
    supports_framebuffer: bool,
    use_full_snapshot: bool,
    path: WindowBackgroundPath,
)
    requires
        call_ensures(
            window_background_path,
            (configured, supports_framebuffer, use_full_snapshot),
            path,
        ),
    ensures
        path == WindowBackgroundPath::Nothing <==> !configured,
        configured && supports_framebuffer && !use_full_snapshot ==> path
            == WindowBackgroundPath::Framebuffer,
        configured && use_full_snapshot ==> path == WindowBackgroundPath::Texture,
        configured && !supports_framebuffer ==> path == WindowBackgroundPath::Texture,
{
}

/// The scene of a whole window: the client's part, the decoration, and what shows through.
pub proof fn law_scene_of_a_whole_window<E>(
    client: Vec<TtyRenderElement<E>>,
    ui: Vec<TtyRenderElement<E>>,
    backdrop: Vec<TtyRenderElement<E>>,
    elements: Vec<TtyRenderElement<E>>,
    i: int,
)
    requires
        call_ensures(full_snapshot_scene::<E>, (client, ui, backdrop), elements),
    ensures
        elements@.len() == client@.len() + ui@.len() + backdrop@.len(),
        0 <= i < client@.len() ==> elements@[i] == client@[i],
        0 <= i < ui@.len() ==> elements@[client@.len() + i] == ui@[i],
        0 <= i < backdrop@.len() ==> elements@[client@.len() + ui@.len() + i] == backdrop@[i],
{
}

/// The client's part is drawn from a picture exactly for a window that is, and is otherwise
/// clipped exactly if the decoration says where.
pub proof fn law_client_paths(use_full_snapshot: bool, has_content_clip: bool, path: ClientPath)
    requires
        call_ensures(client_path, (use_full_snapshot, has_content_clip), path),
    ensures
        path == ClientPath::Snapshot <==> use_full_snapshot,
        !use_full_snapshot && has_content_clip ==> path == ClientPath::Clipped,
        !use_full_snapshot && !has_content_clip ==> path == ClientPath::Plain,
{
}

/// The client's part in the frame: the picture, if there is one, or each surface in its order.
/// All of it moves and scales with the window.
pub proof fn law_client_parts<E>(
    content: ClientContent<E>,
    identity: bool,
    elements: Vec<TtyRenderElement<E>>,
    i: int,
)
    requires
        call_ensures(client_elements::<E>, (content, identity), elements),
    ensures
        content matches ClientContent::Snapshot(None) ==> elements@.len() == 0,
        content matches ClientContent::Snapshot(Some(picture)) ==> elements@.len() == 1
            && elements@[0].element == picture && elements@[0].kind == if identity {
            TtyElementKind::Snapshot
        } else {
            TtyElementKind::TransformedSnapshot
        },
        content matches ClientContent::Plain(list) ==> elements@.len() == list@.len() && (0 <= i
            < list@.len() ==> elements@[i].element == list@[i] && elements@[i].kind
            == if identity {
            TtyElementKind::Window
        } else {
            TtyElementKind::TransformedWindow
        }),
        content matches ClientContent::Clipped(list) ==> elements@.len() == list@.len(),
{
}

/// What effects of a window are drawn from: nothing if none needs it, the root surface alone
/// until the decoration may be drawn, and then both.
pub proof fn law_full_window_sources<T>(
    needed: bool,
    decoration_ready: bool,
    root_source: Vec<T>,
    ui: Vec<T>,
    backdrop: Vec<T>,
    elements: Vec<T>,
    i: int,
)
    requires
        call_ensures(
            full_window_source::<T>,
            (needed, decoration_ready, root_source, ui, backdrop),
            elements,
        ),
    ensures
        !needed ==> elements@.len() == 0,
        needed && !decoration_ready ==> elements@ == root_source@,
        needed && decoration_ready ==> {
            &&& elements@.len() == root_source@.len() + ui@.len() + backdrop@.len()
            &&& 0 <= i < root_source@.len() ==> elements@[i] == root_source@[i]
            &&& 0 <= i < ui@.len() ==> elements@[root_source@.len() + i] == ui@[i]
            &&& 0 <= i < backdrop@.len() ==> elements@[root_source@.len() + ui@.len() + i]
                == backdrop@[i]
        },
{
}

/// Popups of a window at rest are composed with their effects; those of one that is moved or
/// scaled are drawn plain and follow it.
pub proof fn law_popups_follow_their_window<E>(
    identity: bool,
    composed: Vec<TtyRenderElement<E>>,
    raw: Vec<E>,
    out: Vec<TtyRenderElement<E>>,
    i: int,
)
    requires
        call_ensures(window_popups::<E>, (identity, composed, raw), out),
    ensures
        identity ==> out@ == composed@,
        !identity ==> out@.len() == raw@.len(),
        !identity && 0 <= i < raw@.len() ==> out@[i].element == raw@[i] && out@[i].kind
            == TtyElementKind::TransformedWindow,
{
}

/// The body of a window: the client's part in front of the decoration, which a picture already
/// has in it.
pub proof fn law_bodies_of_windows<T>(
    client: Vec<T>,
    ui: Vec<T>,
    backdrop: Vec<T>,
    use_full_snapshot: bool,
    body: Vec<T>,
    i: int,
)
    requires
        call_ensures(window_body::<T>, (client, ui, backdrop, use_full_snapshot), body),
    ensures
        use_full_snapshot ==> body@ == client@,
        !use_full_snapshot ==> {
            &&& body@.len() == client@.len() + ui@.len() + backdrop@.len()
            &&& 0 <= i < client@.len() ==> body@[i] == client@[i]
            &&& 0 <= i < ui@.len() ==> body@[client@.len() + i] == ui@[i]
            &&& 0 <= i < backdrop@.len() ==> body@[client@.len() + ui@.len() + i] == backdrop@[i]
        },
{
}

/// What a window shows: its popups in front; then what replaces it, or else its body; and in
/// between the surfaces that neither a picture nor what replaces it has.
pub proof fn law_what_a_window_shows<T>(
    popups: Vec<T>,
    non_root: Vec<T>,
    body: Vec<T>,
    replacement: Option<Vec<T>>,
    use_full_snapshot: bool,
    elements: Vec<T>,
    i: int,
)
    requires
        call_ensures(
            current_window_elements::<T>,
            (popups, non_root, body, replacement, use_full_snapshot),
            elements,
        ),
    ensures
        0 <= i < popups@.len() ==> elements@.len() > i && elements@[i] == popups@[i],
        replacement is None && !use_full_snapshot ==> elements@.len() == popups@.len() + body@.len()
            && (0 <= i < body@.len() ==> elements@[popups@.len() + i] == body@[i]),
        replacement is None && use_full_snapshot ==> {
            &&& elements@.len() == popups@.len() + non_root@.len() + body@.len()
            &&& 0 <= i < non_root@.len() ==> elements@[popups@.len() + i] == non_root@[i]
            &&& 0 <= i < body@.len() ==> elements@[popups@.len() + non_root@.len() + i] == body@[i]
        },
        replacement is Some ==> {
            &&& elements@.len() == popups@.len() + non_root@.len() + replacement->0@.len()
            &&& 0 <= i < non_root@.len() ==> elements@[popups@.len() + i] == non_root@[i]
            &&& 0 <= i < replacement->0@.len() ==> elements@[popups@.len() + non_root@.len() + i]
                == replacement->0@[i]
        },
{
}

/// A window among its effects: those in front, the window, those behind its root surface, those
/// behind all of it.
pub proof fn law_windows_among_their_effects<T>(
    in_front: Vec<T>,
    current: Vec<T>,
    behind_root: Vec<T>,
    behind: Vec<T>,
    elements: Vec<T>,
    i: int,
)
    requires
        call_ensures(window_with_effects::<T>, (in_front, current, behind_root, behind), elements),
    ensures
        elements@.len() == in_front@.len() + current@.len() + behind_root@.len() + behind@.len(),
        0 <= i < in_front@.len() ==> elements@[i] == in_front@[i],
        0 <= i < current@.len() ==> elements@[in_front@.len() + i] == current@[i],
        0 <= i < behind_root@.len() ==> elements@[in_front@.len() + current@.len() + i]
            == behind_root@[i],
        0 <= i < behind@.len() ==> elements@[in_front@.len() + current@.len() + behind_root@.len()
            + i] == behind@[i],
{
}

/// A window that alone makes up the frame shows its popups and then its surfaces, as they are.
pub proof fn law_fullscreen_windows_are_bare<E>(
    popups: Vec<E>,
    surfaces: Vec<E>,
    elements: Vec<TtyRenderElement<E>>,
    i: int,
)
    requires
        call_ensures(fullscreen_window_elements::<E>, (popups, surfaces), elements),
    ensures
        elements@.len() == popups@.len() + surfaces@.len(),
        0 <= i < elements@.len() ==> elements@[i].kind == TtyElementKind::Window,
        0 <= i < popups@.len() ==> elements@[i].element == popups@[i],
        0 <= i < surfaces@.len() ==> elements@[popups@.len() + i].element == surfaces@[i],
{
}

/// An effect is drawn from the picture that its place and its input call for, over the window or
/// over the client's part.
pub proof fn law_sources_of_window_effects<'a, T>(
    pictures: &WindowPictures<'a, T>,
    placement: SlotPlacement,
    input: EffectInput,
    r: (SlotArea, &'a [T]),
    source: (SlotArea, SlotSource),
)
    requires
        call_ensures(effect_source::<T>, (pictures, placement, input), r),
        call_ensures(effects::slot_source, (placement, input), source),
    ensures
        r.0 == source.0,
        source.1 == SlotSource::FullWindow ==> r.1@ == pictures.full_window@,
        source.1 == SlotSource::RootSurface ==> r.1@ == pictures.root_surface@,
        source.1 == SlotSource::Body ==> r.1@ == pictures.body@,
        source.1 == SlotSource::Current ==> r.1@ == pictures.current@,
{
}

} // verus!
