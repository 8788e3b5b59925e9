//! How the effects of windows, layer surfaces and popups are placed around what they belong
//! to.

use crate::effects::{EffectInput, EffectSlot, WindowEffectConfig};
use crate::geometry::{self, EffectOutsets, LogicalPoint, LogicalRect};
use crate::scene::{self, TtyRenderElement};
use vstd::prelude::*;
use vstd::string::*;

verus! {

/// The area of an effect: the surface with the outsets of the effect, if both have an
/// extent and the area is at least in part on the output.
pub open spec fn effect_area(
    window_rect: LogicalRect,
    outsets: EffectOutsets,
    output_geo: LogicalRect,
) -> Option<LogicalRect> {
    let rect = geometry::expanded_rect(window_rect, outsets);
    if window_rect.is_solid() && rect.is_solid() && geometry::saturated_intersection(
        rect,
        output_geo,
    ) is Some {
        Some(rect)
    } else {
        None
    }
}

/// An effect that is to be drawn.
pub struct WindowEffect {
    pub rect: LogicalRect,
    pub id: u64,
    pub commit: usize,
    /// The name of the intermediate pictures.
    pub pipeline_key: String,
    pub label: String,
}

/// What to draw for an effect of a window, a layer surface or a popup that consists of
/// `element_count` elements; nothing if there are none or if the effect has no area.
pub fn window_effect_elements(
    output: &str,
    output_geo: LogicalRect,
    window_id: &str,
    placement: &str,
    id: u64,
    commit: usize,
    window_rect: LogicalRect,
    outsets: EffectOutsets,
    element_count: usize,
) -> (effect: Option<WindowEffect>)
    ensures
        effect is Some <==> element_count > 0 && effect_area(window_rect, outsets, output_geo)
            is Some,
        effect is Some ==> {
            &&& Some(effect->0.rect) == effect_area(window_rect, outsets, output_geo)
            &&& effect->0.id == id
            &&& effect->0.commit == commit
            &&& effect->0.pipeline_key@ == "tty:window-effect:"@ + output@ + ":"@ + window_id@
                + ":"@ + placement@
            &&& effect->0.label@ == "window-effect:"@ + placement@ + ":"@ + output@ + ":"@
                + window_id@
        },
{
    if element_count == 0 || window_rect.width <= 0 || window_rect.height <= 0 {
        return None;
    }
    let rect: LogicalRect = geometry::expand_logical_rect(window_rect, outsets);
    if rect.width <= 0 || rect.height <= 0 {
        return None;
    }
    if geometry::rectangle_intersection(rect, output_geo).is_none() {
        return None;
    }
    let mut pipeline_key: String = "tty:window-effect:".to_owned();
    pipeline_key.append(output);
    pipeline_key.append(":");
    pipeline_key.append(window_id);
    pipeline_key.append(":");
    pipeline_key.append(placement);
    let mut label: String = "window-effect:".to_owned();
    label.append(placement);
    label.append(":");
    label.append(output);
    label.append(":");
    label.append(window_id);
    Some(WindowEffect { rect, id, commit, pipeline_key, label })
}

/// The name of the state of an effect on an output.
pub fn slot_cache_key(id: &str, placement: &str, output: &str) -> (key: String)
    ensures
        key@ == id@ + "@"@ + placement@ + "@"@ + output@,
{
    let mut key: String = id.to_owned();
    key.append("@");
    key.append(placement);
    key.append("@");
    key.append(output);
    key
}

/// What the effects in the slots have drawn.
pub struct SlotElements<E> {
    pub in_front: Vec<E>,
    pub replace: Vec<E>,
    pub behind_root_surface: Vec<E>,
    pub behind: Vec<E>,
}

/// What an effect in front, an effect that replaces, and effects behind make of a surface:
/// without anything that replaces it the surface itself is shown.
pub open spec fn arranged<E>(
    in_front: Seq<E>,
    replacement: Seq<E>,
    display: Seq<E>,
    behind_root: Seq<E>,
    behind: Seq<E>,
) -> Seq<E> {
    in_front + (if replacement.len() == 0 {
        display
    } else {
        replacement
    }) + behind_root + behind
}

fn arrange<E>(drawn: SlotElements<E>, display: Vec<E>) -> (elements: Vec<E>)
    ensures
        elements@ == arranged(
            drawn.in_front@,
            drawn.replace@,
            display@,
            drawn.behind_root_surface@,
            drawn.behind@,
        ),
{
    let mut display: Vec<E> = display;
    let mut drawn: SlotElements<E> = drawn;
    let mut elements: Vec<E> = Vec::new();
    elements.append(&mut drawn.in_front);
    if drawn.replace.len() == 0 {
        elements.append(&mut display);
    } else {
        elements.append(&mut drawn.replace);
    }
    elements.append(&mut drawn.behind_root_surface);
    elements.append(&mut drawn.behind);
    elements
}

/// The slot holds an effect that is applied to `input`.
pub open spec fn applies_to(slot: Option<EffectSlot>, input: EffectInput) -> bool {
    slot is Some && slot->0.effect.input == input
}

/// The effect in this slot is drawn from the picture of the layer surface.
pub fn draws_layer_slot(slot: &Option<EffectSlot>) -> (r: bool)
    ensures
        r == applies_to(*slot, EffectInput::LayerSource),
{
    match slot {
        Some(slot) => matches!(slot.effect.input, EffectInput::LayerSource),
        None => false,
    }
}

/// The effect in this slot is drawn from the picture of the popup.
pub fn draws_popup_slot(slot: &Option<EffectSlot>) -> (r: bool)
    ensures
        r == applies_to(*slot, EffectInput::PopupSource),
{
    match slot {
        Some(slot) => matches!(slot.effect.input, EffectInput::PopupSource),
        None => false,
    }
}

pub open spec fn kept<E>(wanted: bool, elements: Seq<E>) -> Seq<E> {
    if wanted {
        elements
    } else {
        Seq::empty()
    }
}

fn keep<E>(wanted: bool, elements: Vec<E>) -> (out: Vec<E>)
    ensures
        out@ == kept(wanted, elements@),
{
    if wanted {
        elements
    } else {
        Vec::new()
    }
}

/// A layer surface with its own effects. Only effects that are applied to the surface take
/// part; one that shows what is behind the surface is drawn elsewhere.
pub fn layer_source_effect_elements<E>(
    effects: &WindowEffectConfig,
    drawn: SlotElements<E>,
    display: Vec<E>,
) -> (elements: Vec<E>)
    ensures
        elements@ == arranged(
            kept(applies_to(effects.in_front, EffectInput::LayerSource), drawn.in_front@),
            kept(applies_to(effects.replace, EffectInput::LayerSource), drawn.replace@),
            display@,
            kept(
                applies_to(effects.behind_root_surface, EffectInput::LayerSource),
                drawn.behind_root_surface@,
            ),
            kept(applies_to(effects.behind, EffectInput::LayerSource), drawn.behind@),
        ),
{
    let drawn: SlotElements<E> = SlotElements {
        in_front: keep(draws_layer_slot(&effects.in_front), drawn.in_front),
        replace: keep(draws_layer_slot(&effects.replace), drawn.replace),
        behind_root_surface: keep(
            draws_layer_slot(&effects.behind_root_surface),
            drawn.behind_root_surface,
        ),
        behind: keep(draws_layer_slot(&effects.behind), drawn.behind),
    };
    arrange(drawn, display)
}

/// An effect behind a popup that is drawn from the frame itself.
#[derive(Clone, Copy, Debug, PartialEq, Eq, Structural)]
pub struct PopupBackdrop {
    pub rect: LogicalRect,
    /// The effect also needs the picture of the popup.
    pub needs_popup_source: bool,
}

/// An effect behind a popup that is not applied to the popup can only be drawn from the
/// frame: popups are drawn among the elements of what they belong to, so there is no
/// picture of what lies behind them.
pub open spec fn popup_backdrop_of(
    slot: Option<EffectSlot>,
    popup_rect: LogicalRect,
) -> Option<PopupBackdrop> {
    if slot is Some && slot->0.effect.input != EffectInput::PopupSource
        && slot->0.effect.supports_popup_framebuffer_backdrop {
        Some(
            PopupBackdrop {
                rect: geometry::expanded_rect(popup_rect, slot->0.outsets),
                needs_popup_source: slot->0.effect.uses_popup_source,
            },
        )
    } else {
        None
    }
}

pub fn popup_backdrop(slot: &Option<EffectSlot>, popup_rect: LogicalRect) -> (plan: Option<
    PopupBackdrop,
>)
    ensures
        plan == popup_backdrop_of(*slot, popup_rect),
{
    match slot {
        Some(slot) => if !matches!(slot.effect.input, EffectInput::PopupSource)
            && slot.effect.supports_popup_framebuffer_backdrop {
            Some(
                PopupBackdrop {
                    rect: geometry::expand_logical_rect(popup_rect, slot.outsets),
                    needs_popup_source: slot.effect.uses_popup_source,
                },
            )
        } else {
            None
        },
        None => None,
    }
}

/// Without the picture of the popup an effect that needs it is left out of this frame.
pub fn popup_backdrop_is_drawn(plan: &PopupBackdrop, has_popup_source: bool) -> (r: bool)
    ensures
        r == (plan.needs_popup_source ==> has_popup_source),
{
    !plan.needs_popup_source || has_popup_source
}

pub open spec fn optional<E>(element: Option<E>) -> Seq<E> {
    match element {
        Some(element) => seq![element],
        None => Seq::empty(),
    }
}

/// A popup with its effects. `backdrop` is the effect behind it that was drawn from the
/// frame, if there is one.
pub fn compose_one_popup_elements<E>(
    effects: &WindowEffectConfig,
    popup_rect: LogicalRect,
    drawn: SlotElements<E>,
    backdrop: Option<E>,
    popup: Vec<E>,
) -> (elements: Vec<E>)
    ensures
        elements@ == arranged(
            kept(applies_to(effects.in_front, EffectInput::PopupSource), drawn.in_front@),
            kept(applies_to(effects.replace, EffectInput::PopupSource), drawn.replace@),
            popup@,
            kept(
                applies_to(effects.behind_root_surface, EffectInput::PopupSource),
                drawn.behind_root_surface@,
            ),
            kept(applies_to(effects.behind, EffectInput::PopupSource), drawn.behind@),
        ) + kept(popup_backdrop_of(effects.behind, popup_rect) is Some, optional(backdrop)),
{
    let drawn: SlotElements<E> = SlotElements {
        in_front: keep(draws_popup_slot(&effects.in_front), drawn.in_front),
        replace: keep(draws_popup_slot(&effects.replace), drawn.replace),
        behind_root_surface: keep(
            draws_popup_slot(&effects.behind_root_surface),
            drawn.behind_root_surface,
        ),
        behind: keep(draws_popup_slot(&effects.behind), drawn.behind),
    };
    let mut elements: Vec<E> = arrange(drawn, popup);
    if popup_backdrop(&effects.behind, popup_rect).is_some() {
        match backdrop {
            Some(element) => {
                elements.push(element);
            },
            None => {},
        }
    }
    elements
}

/// The effect behind a popup is of one kind only: drawn from the picture of the popup, or
/// from the frame.
pub proof fn law_popup_has_one_effect_behind(slot: Option<EffectSlot>, popup_rect: LogicalRect)
    ensures
        !(applies_to(slot, EffectInput::PopupSource) && popup_backdrop_of(slot, popup_rect)
            is Some),
{
}

/// A popup: what it shows, and the same with its effects, if any are configured for it.
pub struct PopupElements<E> {
    pub raw: Vec<E>,
    pub with_effects: Option<Vec<E>>,
}

impl<E> PopupElements<E> {
    pub open spec fn shown(self) -> Seq<E> {
        match self.with_effects {
            Some(elements) => elements@,
            None => self.raw@,
        }
    }
}

pub open spec fn popups_shown<E>(popups: Seq<PopupElements<E>>) -> Seq<E>
    decreases popups.len(),
{
    if popups.len() == 0 {
        Seq::empty()
    } else {
        popups_shown(popups.drop_last()) + popups.last().shown()
    }
}

fn popup_scene<E>(popups: Vec<PopupElements<E>>) -> (elements: Vec<E>)
    ensures
        elements@ == popups_shown(popups@),
{
    let ghost all = popups@;
    let mut elements: Vec<E> = Vec::new();
    assert(all.take(0) =~= Seq::<PopupElements<E>>::empty());
    for popup in it: popups
        invariant
            it.seq() == all,
            elements@ =~= popups_shown(all.take(it.index() as int)),
    {
        assert(all.take(it.index() + 1).drop_last() =~= all.take(it.index() as int));
        let mut popup: PopupElements<E> = popup;
        match popup.with_effects {
            Some(mut with_effects) => {
                elements.append(&mut with_effects);
            },
            None => {
                elements.append(&mut popup.raw);
            },
        }
    }
    assert(all.take(all.len() as int) =~= all);
    elements
}

/// The popups of a layer surface, from front to back.
pub fn composed_popup_scene_elements<E>(popups: Vec<PopupElements<E>>) -> (elements: Vec<E>)
    ensures
        elements@ == popups_shown(popups@),
{
    popup_scene(popups)
}

/// The popups of a window, from front to back.
pub fn composed_window_popup_scene_elements<E>(popups: Vec<PopupElements<E>>) -> (elements: Vec<E>)
    ensures
        elements@ == popups_shown(popups@),
{
    popup_scene(popups)
}

/// Where a popup of a layer surface is in the layout of all outputs.
pub fn layer_popup_rect(output_loc: LogicalPoint, local_rect: LogicalRect) -> (rect: LogicalRect)
    requires
        geometry::fits_i32(output_loc.x + local_rect.x),
        geometry::fits_i32(output_loc.y + local_rect.y),
    ensures
        rect == geometry::rect_of(
            output_loc.x + local_rect.x,
            output_loc.y + local_rect.y,
            local_rect.width as int,
            local_rect.height as int,
        ),
{
    local_rect.translated(output_loc.x, output_loc.y)
}

/// Where a layer surface is in the layout of all outputs, if it has been placed.
pub fn layer_surface_logical_rect(
    output_loc: LogicalPoint,
    layer_geometry: Option<LogicalRect>,
) -> (rect: Option<LogicalRect>)
    requires
        layer_geometry is Some ==> geometry::fits_i32(output_loc.x + layer_geometry->0.x)
            && geometry::fits_i32(output_loc.y + layer_geometry->0.y),
    ensures
        rect == (match layer_geometry {
            Some(geo) => Some(
                geometry::rect_of(
                    output_loc.x + geo.x,
                    output_loc.y + geo.y,
                    geo.width as int,
                    geo.height as int,
                ),
            ),
            None => None,
        }),
{
    match layer_geometry {
        Some(geo) => Some(geo.translated(output_loc.x, output_loc.y)),
        None => None,
    }
}

/// The frozen client area of a closing window, if its picture could be built.
pub fn closing_root_surface_source_elements<E>(live: Option<E>, identity: bool) -> (elements: Vec<
    TtyRenderElement<E>,
>)
    ensures
        elements@ == scene::all_as(optional(live), scene::snapshot_kind(identity)),
{
    let mut list: Vec<E> = Vec::new();
    match live {
        Some(element) => {
            list.push(element);
        },
        None => {},
    }
    assert(list@ =~= optional(live));
    scene::transform_snapshot_elements(list, identity)
}

pub open spec fn listed<E>(list: Option<Vec<E>>) -> Seq<E> {
    match list {
        Some(elements) => elements@,
        None => Seq::empty(),
    }
}

/// The decoration of a closing window: icons, text and then what lies below them. What
/// could not be built is left out.
pub open spec fn closing_decoration<E>(
    icons: Option<Vec<E>>,
    texts: Option<Vec<E>>,
    backgrounds: Option<Vec<E>>,
    identity: bool,
) -> Seq<TtyRenderElement<E>> {
    scene::all_as(listed(icons), scene::text_kind(identity)) + scene::all_as(
        listed(texts),
        scene::text_kind(identity),
    ) + scene::all_as(listed(backgrounds), scene::decoration_kind(identity))
}

pub fn closing_decoration_elements<E>(
    icons: Option<Vec<E>>,
    texts: Option<Vec<E>>,
    backgrounds: Option<Vec<E>>,
    identity: bool,
) -> (elements: Vec<TtyRenderElement<E>>)
    ensures
        elements@ == closing_decoration(icons, texts, backgrounds, identity),
{
    let mut elements: Vec<TtyRenderElement<E>> = Vec::new();
    match icons {
        Some(icons) => {
            let mut list: Vec<TtyRenderElement<E>> = scene::transform_text_elements(
                icons,
                identity,
            );
            elements.append(&mut list);
        },
        None => {},
    }
    match texts {
        Some(texts) => {
            let mut list: Vec<TtyRenderElement<E>> = scene::transform_text_elements(
                texts,
                identity,
            );
            elements.append(&mut list);
        },
        None => {},
    }
    match backgrounds {
        Some(backgrounds) => {
            let mut list: Vec<TtyRenderElement<E>> = scene::transform_decoration_elements(
                backgrounds,
                identity,
            );
            elements.append(&mut list);
        },
        None => {},
    }
    assert(elements@ =~= closing_decoration(icons, texts, backgrounds, identity));
    elements
}

/// A closing window with its decoration, which stands in front of the client area.
pub fn closing_full_window_source_elements<E>(
    decoration: Vec<TtyRenderElement<E>>,
    root: Vec<TtyRenderElement<E>>,
) -> (elements: Vec<TtyRenderElement<E>>)
    ensures
        elements@ == decoration@ + root@,
{
    let mut elements: Vec<TtyRenderElement<E>> = decoration;
    let mut root: Vec<TtyRenderElement<E>> = root;
    elements.append(&mut root);
    elements
}

/// A closing window: what its effects have drawn and what it shows without them.
pub struct ClosingElements<E> {
    pub drawn: SlotElements<E>,
    pub full_window: Vec<E>,
}

impl<E> ClosingElements<E> {
    pub open spec fn shown(self) -> Seq<E> {
        arranged(
            self.drawn.in_front@,
            self.drawn.replace@,
            self.full_window@,
            self.drawn.behind_root_surface@,
            self.drawn.behind@,
        )
    }
}

pub open spec fn closing_shown<E>(windows: Seq<ClosingElements<E>>) -> Seq<E>
    decreases windows.len(),
{
    if windows.len() == 0 {
        Seq::empty()
    } else {
        closing_shown(windows.drop_last()) + windows.last().shown()
    }
}

/// The windows that are closing, from front to back, each with its effects.
pub fn closing_snapshot_elements<E>(windows: Vec<ClosingElements<E>>) -> (elements: Vec<E>)
    ensures
        elements@ == closing_shown(windows@),
{
    let ghost all = windows@;
    let mut elements: Vec<E> = Vec::new();
    assert(all.take(0) =~= Seq::<ClosingElements<E>>::empty());
    for window in it: windows
        invariant
            it.seq() == all,
            elements@ =~= closing_shown(all.take(it.index() as int)),
    {
        assert(all.take(it.index() + 1).drop_last() =~= all.take(it.index() as int));
        let mut shown: Vec<E> = arrange(window.drawn, window.full_window);
        elements.append(&mut shown);
    }
    assert(all.take(all.len() as int) =~= all);
    elements
}

/// An effect is drawn exactly if there is something to draw it from, the surface and the area
/// have an extent, and the area is on the output. The area is the surface with the outsets.
pub proof fn law_drawn_effects(
    output: &str,
    output_geo: LogicalRect,
    window_id: &str,
    placement: &str,
    id: u64,
    commit: usize,
    window_rect: LogicalRect,
    outsets: EffectOutsets,
    element_count: usize,
    effect: Option<WindowEffect>,
)
    requires
        call_ensures(
            window_effect_elements,
            (
                output,
                output_geo,
                window_id,
                placement,
                id,
                commit,
                window_rect,
                outsets,
                element_count,
            ),
            effect,
        ),
        geometry::fits_i32(window_rect.x - outsets.left),
        geometry::fits_i32(window_rect.y - outsets.top),
        geometry::fits_i32(window_rect.width + outsets.left),
        geometry::fits_i32(window_rect.width + outsets.left + outsets.right),
        geometry::fits_i32(window_rect.height + outsets.top),
        geometry::fits_i32(window_rect.height + outsets.top + outsets.bottom),
    ensures
        element_count == 0 ==> effect is None,
        !window_rect.is_solid() ==> effect is None,
        effect is Some ==> {
            &&& effect->0.rect.x == window_rect.x - outsets.left
            &&& effect->0.rect.y == window_rect.y - outsets.top
            &&& effect->0.rect.right() == window_rect.right() + outsets.right
            &&& effect->0.rect.bottom() == window_rect.bottom() + outsets.bottom
            &&& effect->0.id == id
            &&& effect->0.commit == commit
        },
        element_count > 0 && window_rect.is_solid() && window_rect.width + outsets.left
            + outsets.right > 0 && window_rect.height + outsets.top + outsets.bottom > 0
            && geometry::saturated_intersection(
            geometry::expanded_rect(window_rect, outsets),
            output_geo,
        ) is Some ==> effect is Some,
        geometry::saturated_intersection(
            geometry::expanded_rect(window_rect, outsets),
            output_geo,
        ) is None ==> effect is None,
{
}

/// An effect of a layer surface or popup is drawn from it exactly if it is applied to it.
pub proof fn law_slots_drawn_from_their_surface(
    slot: &Option<EffectSlot>,
    layer: bool,
    popup: bool,
)
    requires
        call_ensures(draws_layer_slot, (slot,), layer),
        call_ensures(draws_popup_slot, (slot,), popup),
    ensures
        slot is None ==> !layer && !popup,
        slot is Some ==> layer == (slot->0.effect.input == EffectInput::LayerSource),
        slot is Some ==> popup == (slot->0.effect.input == EffectInput::PopupSource),
{
}

proof fn lemma_parts_in_turn<E>(a: Seq<E>, b: Seq<E>, c: Seq<E>, d: Seq<E>, i: int)
    ensures
        (a + b + c + d).len() == a.len() + b.len() + c.len() + d.len(),
        0 <= i < a.len() ==> (a + b + c + d)[i] == a[i],
        0 <= i < b.len() ==> (a + b + c + d)[a.len() + i] == b[i],
        0 <= i < c.len() ==> (a + b + c + d)[a.len() + b.len() + i] == c[i],
        0 <= i < d.len() ==> (a + b + c + d)[a.len() + b.len() + c.len() + i] == d[i],
{
}

/// A layer surface among its effects: those in front, then what replaces it or else itself, then
/// those behind it. An effect that is not applied to the surface takes no part.
pub proof fn law_layers_among_their_effects<E>(
    effects: &WindowEffectConfig,
    drawn: SlotElements<E>,
    display: Vec<E>,
    elements: Vec<E>,
    i: int,
)
    requires
        call_ensures(layer_source_effect_elements::<E>, (effects, drawn, display), elements),
    ensures
        ({
            let uses_front = effects.in_front is Some && effects.in_front->0.effect.input
                == EffectInput::LayerSource;
            let uses_replace = effects.replace is Some && effects.replace->0.effect.input
                == EffectInput::LayerSource;
            let uses_root = effects.behind_root_surface is Some
                && effects.behind_root_surface->0.effect.input == EffectInput::LayerSource;
            let uses_behind = effects.behind is Some && effects.behind->0.effect.input
                == EffectInput::LayerSource;
            let front: int = if uses_front {
                drawn.in_front@.len() as int
            } else {
                0
            };
            let replaced = uses_replace && drawn.replace@.len() > 0;
            let middle = if replaced {
                drawn.replace@
            } else {
                display@
            };
            let root: int = if uses_root {
                drawn.behind_root_surface@.len() as int
            } else {
                0
            };
            let behind: int = if uses_behind {
                drawn.behind@.len() as int
            } else {
                0
            };
            &&& elements@.len() == front + middle.len() + root + behind
            &&& 0 <= i < front ==> elements@[i] == drawn.in_front@[i]
            &&& 0 <= i < middle.len() ==> elements@[front + i] == middle[i]
            &&& 0 <= i < root ==> elements@[front + middle.len() + i]
                == drawn.behind_root_surface@[i]
            &&& 0 <= i < behind ==> elements@[front + middle.len() + root + i] == drawn.behind@[i]
        }),
{
    let a = kept(applies_to(effects.in_front, EffectInput::LayerSource), drawn.in_front@);
    let r = kept(applies_to(effects.replace, EffectInput::LayerSource), drawn.replace@);
    let b = if r.len() == 0 {
        display@
    } else {
        r
    };
    let c = kept(
        applies_to(effects.behind_root_surface, EffectInput::LayerSource),
        drawn.behind_root_surface@,
    );
    let d = kept(applies_to(effects.behind, EffectInput::LayerSource), drawn.behind@);
    assert(elements@ == a + b + c + d);
    lemma_parts_in_turn(a, b, c, d, i);
}

/// An effect behind a popup is drawn from the frame exactly if it can be and is not applied to
/// the popup itself; it covers the popup with its outsets.
pub proof fn law_popup_backdrops(
    slot: &Option<EffectSlot>,
    popup_rect: LogicalRect,
    plan: Option<PopupBackdrop>,
)
    requires
        call_ensures(popup_backdrop, (slot, popup_rect), plan),
    ensures
        plan is Some <==> slot is Some && slot->0.effect.supports_popup_framebuffer_backdrop
            && slot->0.effect.input != EffectInput::PopupSource,
        plan is Some ==> plan->0.needs_popup_source == slot->0.effect.uses_popup_source,
        plan is Some && geometry::fits_i32(popup_rect.x - slot->0.outsets.left)
            && geometry::fits_i32(popup_rect.width + slot->0.outsets.left) && geometry::fits_i32(
            popup_rect.width + slot->0.outsets.left + slot->0.outsets.right,
        ) ==> plan->0.rect.x == popup_rect.x - slot->0.outsets.left && plan->0.rect.right()
            == popup_rect.right() + slot->0.outsets.right,
        plan is Some && geometry::fits_i32(popup_rect.y - slot->0.outsets.top)
            && geometry::fits_i32(popup_rect.height + slot->0.outsets.top) && geometry::fits_i32(
            popup_rect.height + slot->0.outsets.top + slot->0.outsets.bottom,
        ) ==> plan->0.rect.y == popup_rect.y - slot->0.outsets.top && plan->0.rect.bottom()
            == popup_rect.bottom() + slot->0.outsets.bottom,
{
}

/// An effect that needs the picture of the popup waits for it; another does not.
pub proof fn law_popup_backdrops_wait_for_their_popup(
    plan: &PopupBackdrop,
    has_popup_source: bool,
    r: bool,
)
    requires
        call_ensures(popup_backdrop_is_drawn, (plan, has_popup_source), r),
    ensures
        has_popup_source ==> r,
        !plan.needs_popup_source ==> r,
        plan.needs_popup_source && !has_popup_source ==> !r,
{
}

/// A popup among its effects: those in front, then what replaces it or else itself, then those
/// behind it, and last the one that is drawn from the frame.
pub proof fn law_popups_among_their_effects<E>(
    effects: &WindowEffectConfig,
    popup_rect: LogicalRect,
    drawn: SlotElements<E>,
    backdrop: Option<E>,
    popup: Vec<E>,
    elements: Vec<E>,
    i: int,
)
    requires
        call_ensures(
            compose_one_popup_elements::<E>,
            (effects, popup_rect, drawn, backdrop, popup),
            elements,
        ),
    ensures
        ({
            let uses_front = effects.in_front is Some && effects.in_front->0.effect.input
                == EffectInput::PopupSource;
            let uses_replace = effects.replace is Some && effects.replace->0.effect.input
                == EffectInput::PopupSource;
            let uses_root = effects.behind_root_surface is Some
                && effects.behind_root_surface->0.effect.input == EffectInput::PopupSource;
            let uses_behind = effects.behind is Some && effects.behind->0.effect.input
                == EffectInput::PopupSource;
            let from_frame = effects.behind is Some && !uses_behind
                && effects.behind->0.effect.supports_popup_framebuffer_backdrop
                && backdrop is Some;
            let front: int = if uses_front {
                drawn.in_front@.len() as int
            } else {
                0
            };
            let replaced = uses_replace && drawn.replace@.len() > 0;
            let middle = if replaced {
                drawn.replace@
            } else {
                popup@
            };
            let root: int = if uses_root {
                drawn.behind_root_surface@.len() as int
            } else {
                0
            };
            let behind: int = if uses_behind {
                drawn.behind@.len() as int
            } else {
                0
            };
            &&& elements@.len() == front + middle.len() + root + behind + (if from_frame {
                1int
            } else {
                0
            })
            &&& 0 <= i < front ==> elements@[i] == drawn.in_front@[i]
            &&& 0 <= i < middle.len() ==> elements@[front + i] == middle[i]
            &&& 0 <= i < root ==> elements@[front + middle.len() + i]
                == drawn.behind_root_surface@[i]
            &&& 0 <= i < behind ==> elements@[front + middle.len() + root + i] == drawn.behind@[i]
            &&& from_frame ==> elements@.last() == backdrop->0
        }),
{
    let a = kept(applies_to(effects.in_front, EffectInput::PopupSource), drawn.in_front@);
    let r = kept(applies_to(effects.replace, EffectInput::PopupSource), drawn.replace@);
    let b = if r.len() == 0 {
        popup@
    } else {
        r
    };
    let c = kept(
        applies_to(effects.behind_root_surface, EffectInput::PopupSource),
        drawn.behind_root_surface@,
    );
    let d = kept(applies_to(effects.behind, EffectInput::PopupSource), drawn.behind@);
    let e = kept(popup_backdrop_of(effects.behind, popup_rect) is Some, optional(backdrop));
    let all = a + b + c + d;
    assert(elements@ == all + e);
    lemma_parts_in_turn(a, b, c, d, i);
    if e.len() > 0 {
        assert(elements@.last() == e[0]);
    }
}

/// Popups follow each other from front to back, each with its effects if it has any.
pub proof fn law_popups_follow_each_other<E>(
    popups: Vec<PopupElements<E>>,
    longer: Vec<PopupElements<E>>,
    popup: PopupElements<E>,
    elements: Vec<E>,
    longer_elements: Vec<E>,
    of_window: Vec<E>,
)
    requires
        call_ensures(composed_popup_scene_elements::<E>, (popups,), elements),
        call_ensures(composed_popup_scene_elements::<E>, (longer,), longer_elements),
        call_ensures(composed_window_popup_scene_elements::<E>, (longer,), of_window),
        longer@ == popups@.push(popup),
    ensures
        popups@.len() == 0 ==> elements@.len() == 0,
        popup.with_effects is Some ==> longer_elements@ == elements@ + popup.with_effects->0@,
        popup.with_effects is None ==> longer_elements@ == elements@ + popup.raw@,
        of_window@ == longer_elements@,
{
    assert(longer@.drop_last() =~= popups@);
}

/// A popup, or a layer surface, is in the layout where it is on its output, moved by where the
/// output is.
pub proof fn law_surfaces_are_placed_by_their_output(
    output_loc: LogicalPoint,
    local_rect: LogicalRect,
    popup: LogicalRect,
    layer: Option<LogicalRect>,
    unplaced: Option<LogicalRect>,
)
    requires
        geometry::fits_i32(output_loc.x + local_rect.x),
        geometry::fits_i32(output_loc.y + local_rect.y),
        call_ensures(layer_popup_rect, (output_loc, local_rect), popup),
        call_ensures(layer_surface_logical_rect, (output_loc, Some(local_rect)), layer),
        call_ensures(layer_surface_logical_rect, (output_loc, None), unplaced),
    ensures
        popup.x == output_loc.x + local_rect.x,
        popup.y == output_loc.y + local_rect.y,
        popup.width == local_rect.width,
        popup.height == local_rect.height,
        layer == Some(popup),
        unplaced is None,
{
}

/// A closing window shows its frozen client's part, if there is one.
pub proof fn law_closing_roots<E>(
    live: Option<E>,
    identity: bool,
    elements: Vec<TtyRenderElement<E>>,
)
    requires
        call_ensures(closing_root_surface_source_elements::<E>, (live, identity), elements),
    ensures
        live is None ==> elements@.len() == 0,
        live is Some ==> elements@.len() == 1 && elements@[0].element == live->0
            && elements@[0].kind == if identity {
            scene::TtyElementKind::Snapshot
        } else {
            scene::TtyElementKind::TransformedSnapshot
        },
{
}

/// The decoration of a closing window: icons in front of texts in front of backgrounds. What
/// could not be built is missing, and the rest is there.
pub proof fn law_closing_decorations<E>(
    icons: Option<Vec<E>>,
    texts: Option<Vec<E>>,
    backgrounds: Option<Vec<E>>,
    identity: bool,
    elements: Vec<TtyRenderElement<E>>,
    i: int,
)
    requires
        call_ensures(
            closing_decoration_elements::<E>,
            (icons, texts, backgrounds, identity),
            elements,
        ),
    ensures
        ({
            let a: int = if icons is Some {
                icons->0@.len() as int
            } else {
                0
            };
            let b: int = if texts is Some {
                texts->0@.len() as int
            } else {
                0
            };
            let c: int = if backgrounds is Some {
                backgrounds->0@.len() as int
            } else {
                0
            };
            let text = if identity {
                scene::TtyElementKind::RelocatedText
            } else {
                scene::TtyElementKind::TransformedText
            };
            let decoration = if identity {
                scene::TtyElementKind::RelocatedDecoration
            } else {
                scene::TtyElementKind::TransformedDecoration
            };
            &&& elements@.len() == a + b + c
            &&& 0 <= i < a ==> elements@[i].element == icons->0@[i] && elements@[i].kind == text
            &&& 0 <= i < b ==> elements@[a + i].element == texts->0@[i] && elements@[a + i].kind
                == text
            &&& 0 <= i < c ==> elements@[a + b + i].element == backgrounds->0@[i] && elements@[a + b
                + i].kind == decoration
        }),
{
}

/// The decoration of a closing window is in front of its client's part.
pub proof fn law_closing_windows_stand_behind_their_decoration<E>(
    decoration: Vec<TtyRenderElement<E>>,
    root: Vec<TtyRenderElement<E>>,
    elements: Vec<TtyRenderElement<E>>,
    i: int,
)
    requires
        call_ensures(closing_full_window_source_elements::<E>, (decoration, root), elements),
    ensures
        elements@.len() == decoration@.len() + root@.len(),
        0 <= i < decoration@.len() ==> elements@[i] == decoration@[i],
        0 <= i < root@.len() ==> elements@[decoration@.len() + i] == root@[i],
{
}

/// Closing windows follow each other from front to back: the effects in front of each, what
/// replaces it or else itself, and the effects behind it.
pub proof fn law_closing_windows_follow_each_other<E>(
    windows: Vec<ClosingElements<E>>,
    longer: Vec<ClosingElements<E>>,
    window: ClosingElements<E>,
    elements: Vec<E>,
    longer_elements: Vec<E>,
    i: int,
)
    requires
        call_ensures(closing_snapshot_elements::<E>, (windows,), elements),
        call_ensures(closing_snapshot_elements::<E>, (longer,), longer_elements),
        longer@ == windows@.push(window),
    ensures
        windows@.len() == 0 ==> elements@.len() == 0,
        ({
            let start = elements@.len();
            let front = window.drawn.in_front@;
            let middle = if window.drawn.replace@.len() > 0 {
                window.drawn.replace@
            } else {
                window.full_window@
            };
            let root = window.drawn.behind_root_surface@;
            let behind = window.drawn.behind@;
            let all = longer_elements@;
            &&& all.len() == start + front.len() + middle.len() + root.len() + behind.len()
            &&& all.take(start as int) == elements@
            &&& 0 <= i < front.len() ==> all[start + i] == front[i]
            &&& 0 <= i < middle.len() ==> all[start + front.len() + i] == middle[i]
            &&& 0 <= i < root.len() ==> all[start + front.len() + middle.len() + i] == root[i]
            &&& 0 <= i < behind.len() ==> all[start + front.len() + middle.len() + root.len() + i]
                == behind[i]
        }),
{
    assert(longer@.drop_last() =~= windows@);
    assert(longer_elements@.take(elements@.len() as int) =~= elements@);
}

/// States of effects are told apart by what they belong to, by the slot and by the output.
pub proof fn law_slot_keys_are_told_apart(
    a: &str,
    b: &str,
    placement: &str,
    other_placement: &str,
    output: &str,
    other_output: &str,
    key: String,
    of_other: String,
    in_other: String,
    on_other: String,
)
    requires
        call_ensures(slot_cache_key, (a, placement, output), key),
        call_ensures(slot_cache_key, (b, placement, output), of_other),
        call_ensures(slot_cache_key, (a, other_placement, output), in_other),
        call_ensures(slot_cache_key, (a, placement, other_output), on_other),
    ensures
        key@ == of_other@ <==> a@ == b@,
        key@ == in_other@ <==> placement@ == other_placement@,
        key@ == on_other@ <==> output@ == other_output@,
{
    let tail = "@"@ + placement@ + "@"@ + output@;
    assert(key@ =~= a@ + tail);
    assert(of_other@ =~= b@ + tail);
    crate::text::law_same_endings(tail, a@, b@);
    let head = a@ + "@"@;
    let end = "@"@ + output@;
    assert(key@ =~= head + (placement@ + end));
    assert(in_other@ =~= head + (other_placement@ + end));
    crate::text::law_same_beginnings(head, placement@ + end, other_placement@ + end);
    crate::text::law_same_endings(end, placement@, other_placement@);
    crate::text::law_same_beginnings(a@ + "@"@ + placement@ + "@"@, output@, other_output@);
}

} // verus!
