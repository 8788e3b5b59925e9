//! Effects that show what is behind a window: those of its decoration and those behind the
//! region that its client asked for.
//!
//! For every effect it is decided whether the picture drawn last is used again. Otherwise
//! the picture is drawn, and what came of that is recorded.

use crate::backdrop::{self, BackdropArea, SceneBehind, SceneView, ShaderItem, SourceDamage};
use crate::cache::{self, ElementState};
use crate::damage::OwnedDamageRect;
use crate::effects::EffectTraits;
use crate::geometry::{self, LogicalPoint, LogicalRect};
use crate::signature::{self, LayerPlace, WindowPlace};
use crate::slots;
use crate::table::{self, NameTable};
use crate::text;
use vstd::prelude::*;
use vstd::slice::slice_subrange;
use vstd::string::*;

verus! {

/// What comes after position `index` of a list that runs from front to back.
pub open spec fn rest_after<T>(list: Seq<T>, index: usize) -> Seq<T> {
    if index < list.len() {
        list.subrange(index + 1, list.len() as int)
    } else {
        Seq::empty()
    }
}

pub fn below<T>(list: &[T], index: usize) -> (rest: &[T])
    ensures
        rest@ == rest_after(list@, index),
{
    let end: usize = list.len();
    if index < end {
        slice_subrange(list, index + 1, end)
    } else {
        slice_subrange(list, end, end)
    }
}

/// The positions of the effects of a decoration that are drawn from a captured picture.
pub open spec fn captured_indices(items: Seq<ShaderItem>, prefer_framebuffer: bool) -> Seq<usize>
    decreases items.len(),
{
    if items.len() == 0 {
        Seq::empty()
    } else {
        let rest = captured_indices(items.drop_last(), prefer_framebuffer);
        if items.last().is_captured(prefer_framebuffer) {
            rest.push((items.len() - 1) as usize)
        } else {
            rest
        }
    }
}

pub fn captured_items(items: &[ShaderItem], prefer_framebuffer: bool) -> (indices: Vec<usize>)
    ensures
        indices@ == captured_indices(items@, prefer_framebuffer),
{
    let mut indices: Vec<usize> = Vec::new();
    let mut index: usize = 0;
    assert(items@.take(0) =~= Seq::<ShaderItem>::empty());
    while index < items.len()
        invariant
            index <= items@.len(),
            indices@ == captured_indices(items@.take(index as int), prefer_framebuffer),
        decreases items@.len() - index,
    {
        assert(items@.take(index + 1).drop_last() =~= items@.take(index as int));
        let item: &ShaderItem = &items[index];
        if item.texture_backed && (!prefer_framebuffer
            || !item.effect.supports_framebuffer_backdrop) {
            indices.push(index);
        }
        index += 1;
    }
    assert(items@.take(items@.len() as int) =~= items@);
    indices
}

/// An effect that shows what is behind it stands among the backdrops of a window and not
/// among the rest of its decoration.
pub open spec fn stands_behind(effect: EffectTraits) -> bool {
    effect.uses_backdrop || effect.uses_xray
}

pub fn render_as_backdrop(effect: &EffectTraits) -> (r: bool)
    ensures
        r == stands_behind(*effect),
{
    effect.uses_backdrop || effect.uses_xray
}

/// A window whose effects are drawn, among everything else on its output.
pub struct WindowScene<'a> {
    pub output: &'a str,
    pub output_geo: LogicalRect,
    /// Where the output is in the layout, as its layer surfaces are placed by it.
    pub output_loc: LogicalPoint,
    /// The corner of the window with its decoration.
    pub root: LogicalPoint,
    /// The windows of the output from top to bottom.
    pub windows: &'a [WindowPlace],
    /// The place of the window among them.
    pub index: usize,
    pub lower_layers: &'a [LayerPlace],
    /// Grows with every change of what the layer surfaces below all windows show.
    pub lower_generation: u64,
}

/// The identities of windows; those without a decoration have none.
pub open spec fn window_ids(windows: Seq<WindowPlace>) -> Seq<Option<String>> {
    windows.map_values(
        |window: WindowPlace|
            match window.decorated {
                Some((id, _)) => Some(id),
                None => None,
            },
    )
}

pub open spec fn layer_ids(layers: Seq<LayerPlace>) -> Seq<u32> {
    layers.map_values(|layer: LayerPlace| layer.protocol_id)
}

pub(crate) fn collect_window_ids(windows: &[WindowPlace]) -> (ids: Vec<Option<String>>)
    ensures
        ids@ == window_ids(windows@),
{
    let mut ids: Vec<Option<String>> = Vec::new();
    let mut index: usize = 0;
    while index < windows.len()
        invariant
            index <= windows@.len(),
            ids@ =~= window_ids(windows@.take(index as int)),
        decreases windows@.len() - index,
    {
        let id: Option<String> = match &windows[index].decorated {
            Some(decorated) => Some(decorated.0.clone()),
            None => None,
        };
        ids.push(id);
        index += 1;
    }
    assert(windows@.take(windows@.len() as int) =~= windows@);
    ids
}

pub(crate) fn collect_layer_ids(layers: &[LayerPlace]) -> (ids: Vec<u32>)
    ensures
        ids@ == layer_ids(layers@),
{
    let mut ids: Vec<u32> = Vec::new();
    let mut index: usize = 0;
    while index < layers.len()
        invariant
            index <= layers@.len(),
            ids@ =~= layer_ids(layers@.take(index as int)),
        decreases layers@.len() - index,
    {
        ids.push(layers[index].protocol_id);
        index += 1;
    }
    assert(layers@.take(layers@.len() as int) =~= layers@);
    ids
}

impl<'a> WindowScene<'a> {
    /// What can be seen through the window: the windows below it and the layer surfaces
    /// below all windows.
    pub open spec fn behind(self) -> SceneView {
        SceneView {
            lower_generation: self.lower_generation,
            windows: rest_after(self.windows@, self.index),
            lower_layers: self.lower_layers@,
            upper_layers: Seq::empty(),
            output_loc: self.output_loc,
        }
    }

    /// An effect can be drawn at this place.
    pub open spec fn fits(self, effect: EffectTraits, rect: LogicalRect) -> bool {
        &&& backdrop::padding_fits(rect, backdrop::blur_reach(effect.blur))
        &&& rect.fits_from(self.root)
        &&& rect.fits_from(self.output_geo.corner())
        &&& self.behind().fits_for(effect, rect)
    }

    fn scene_behind(&self) -> (scene: SceneBehind<'a>)
        ensures
            scene@ == self.behind(),
    {
        let nothing: &'a [LayerPlace] = below(self.lower_layers, self.lower_layers.len());
        SceneBehind {
            lower_generation: self.lower_generation,
            windows: below(self.windows, self.index),
            lower_layers: self.lower_layers,
            upper_layers: nothing,
            output_loc: self.output_loc,
        }
    }

    /// The damage of what an effect of the window shows, in the order it was reported.
    pub fn damage_behind(
        &self,
        effect: &EffectTraits,
        source: &SourceDamage,
    ) -> (entries: Vec<OwnedDamageRect>)
        ensures
            entries@ == backdrop::relevant_damage(
                *effect,
                window_ids(self.behind().windows),
                layer_ids(self.lower_layers@),
                Seq::empty(),
                *source,
            ),
    {
        let windows: Vec<Option<String>> = collect_window_ids(below(self.windows, self.index));
        let layers: Vec<u32> = collect_layer_ids(self.lower_layers);
        let none: Vec<u32> = Vec::new();
        assert(none@ =~= Seq::<u32>::empty());
        backdrop::relevant_source_damage(
            effect,
            windows.as_slice(),
            layers.as_slice(),
            none.as_slice(),
            source,
        )
    }
}

/// An element that shows the picture of an effect of a window.
#[derive(Clone, Copy, Debug, PartialEq, Eq, Structural)]
pub struct PlacedBackdrop {
    pub order: usize,
    pub id: u64,
    pub commit: usize,
    /// Where it is drawn, relative to its window.
    pub local_rect: LogicalRect,
    /// The same area relative to the output.
    pub sample_rect: LogicalRect,
}

pub open spec fn placed(
    order: usize,
    state: ElementState,
    effect_rect: LogicalRect,
    root: LogicalPoint,
    output_loc: LogicalPoint,
) -> PlacedBackdrop {
    PlacedBackdrop {
        order,
        id: state.id,
        commit: state.commit,
        local_rect: effect_rect.seen_from(root),
        sample_rect: effect_rect.seen_from(output_loc),
    }
}

fn place(
    order: usize,
    state: ElementState,
    effect_rect: LogicalRect,
    root: LogicalPoint,
    output_loc: LogicalPoint,
) -> (element: PlacedBackdrop)
    requires
        effect_rect.fits_from(root),
        effect_rect.fits_from(output_loc),
    ensures
        element == placed(order, state, effect_rect, root, output_loc),
{
    PlacedBackdrop {
        order,
        id: state.id,
        commit: state.commit,
        local_rect: effect_rect.relative_to(root),
        sample_rect: effect_rect.relative_to(output_loc),
    }
}

/// How to go on with an effect of a window.
#[derive(Clone, Copy, Debug, PartialEq, Eq, Structural)]
pub enum BackdropStep {
    /// Show the picture drawn last.
    Reuse(PlacedBackdrop),
    /// Capture the scene, draw the picture and record it under this signature.
    Redraw(u64),
}

pub open spec fn step_for(
    entry: Option<ElementState>,
    signature: u64,
    always_invalidated: bool,
    damaged: bool,
    order: usize,
    effect_rect: LogicalRect,
    root: LogicalPoint,
    output_loc: LogicalPoint,
) -> BackdropStep {
    if cache::reusable(entry, signature, always_invalidated, damaged) {
        BackdropStep::Reuse(placed(order, entry->0, effect_rect, root, output_loc))
    } else {
        BackdropStep::Redraw(signature)
    }
}

/// The name of the picture of an effect of a decoration: on each output there is one that
/// follows the movement of the window and one that does not.
pub open spec fn shader_key(stable_key: Seq<char>, output: Seq<char>, visual: bool) -> Seq<char> {
    stable_key + "@"@ + output + "@"@ + (if visual {
        "visual"@
    } else {
        "raw"@
    })
}

pub fn shader_cache_key(stable_key: &str, output: &str, visual: bool) -> (key: String)
    ensures
        key@ == shader_key(stable_key@, output@, visual),
{
    let mut key: String = stable_key.to_owned();
    key.append("@");
    key.append(output);
    key.append("@");
    if visual {
        key.append("visual");
    } else {
        key.append("raw");
    }
    key
}

/// Records that the picture of an effect of a window was drawn anew and returns the element
/// that shows it.
pub fn backdrop_drawn_for_window(
    cache: &mut NameTable<ElementState>,
    key: &str,
    signature: u64,
    fresh_id: u64,
    order: usize,
    effect_rect: LogicalRect,
    root: LogicalPoint,
    output_loc: LogicalPoint,
) -> (element: PlacedBackdrop)
    requires
        effect_rect.fits_from(root),
        effect_rect.fits_from(output_loc),
    ensures
        final(cache)@ == old(cache)@.insert(
            key@,
            cache::redrawn_state(table::lookup(old(cache)@, key@), signature, fresh_id),
        ),
        element == placed(order, final(cache)@[key@], effect_rect, root, output_loc),
{
    let state: ElementState = cache::store_backdrop(cache, key, signature, fresh_id);
    place(order, state, effect_rect, root, output_loc)
}

/// What is known of an effect in one frame, and what drawing it comes to.
#[derive(Clone, Copy, Debug, PartialEq, Eq, Structural)]
pub struct EffectReply {
    /// The corner of the visible captured area in pixels.
    pub origin: LogicalPoint,
    /// Something that the effect shows has changed.
    pub damaged: bool,
    /// The number for the element that shows a new picture, if the picture can be drawn.
    pub drawn: Option<u64>,
    /// The element that shows the picture can be built.
    pub shown: bool,
}

/// What is kept of the pictures after an effect: one that was drawn anew replaces the one
/// before.
pub open spec fn kept_after(
    pictures: Map<Seq<char>, ElementState>,
    key: Seq<char>,
    step: BackdropStep,
    reply: EffectReply,
) -> Map<Seq<char>, ElementState> {
    match (step, reply.drawn) {
        (BackdropStep::Redraw(signature), Some(fresh_id)) => pictures.insert(
            key,
            cache::redrawn_state(table::lookup(pictures, key), signature, fresh_id),
        ),
        _ => pictures,
    }
}

/// The element that shows an effect, if there is one in this frame.
pub open spec fn element_of(
    scene: WindowScene,
    pictures: Map<Seq<char>, ElementState>,
    key: Seq<char>,
    step: BackdropStep,
    reply: EffectReply,
    order: usize,
    rect: LogicalRect,
) -> Option<PlacedBackdrop> {
    if !reply.shown {
        None
    } else {
        match step {
            BackdropStep::Reuse(element) => Some(element),
            BackdropStep::Redraw(signature) => match reply.drawn {
                Some(fresh_id) => Some(
                    placed(
                        order,
                        cache::redrawn_state(table::lookup(pictures, key), signature, fresh_id),
                        rect,
                        scene.root,
                        scene.output_geo.corner(),
                    ),
                ),
                None => None,
            },
        }
    }
}

/// Records what came of an effect and returns the element that shows it.
fn settle(
    scene: &WindowScene,
    pictures: &mut NameTable<ElementState>,
    key: &str,
    step: BackdropStep,
    reply: EffectReply,
    order: usize,
    rect: LogicalRect,
) -> (element: Option<PlacedBackdrop>)
    requires
        rect.fits_from(scene.root),
        rect.fits_from(scene.output_geo.corner()),
    ensures
        final(pictures)@ == kept_after(old(pictures)@, key@, step, reply),
        element == element_of(*scene, old(pictures)@, key@, step, reply, order, rect),
{
    match step {
        BackdropStep::Reuse(element) => if reply.shown {
            Some(element)
        } else {
            None
        },
        BackdropStep::Redraw(signature) => match reply.drawn {
            Some(fresh_id) => {
                let element: PlacedBackdrop = backdrop_drawn_for_window(
                    pictures,
                    key,
                    signature,
                    fresh_id,
                    order,
                    rect,
                    scene.root,
                    scene.output_geo.location(),
                );
                if reply.shown {
                    Some(element)
                } else {
                    None
                }
            },
            None => None,
        },
    }
}

/// How to go on with an effect of the decoration of a window. It depends on the area around
/// the effect, on the windows below and on the layer surfaces below those.
pub open spec fn shader_step(
    scene: WindowScene,
    pictures: Map<Seq<char>, ElementState>,
    item: ShaderItem,
    visual: bool,
    origin: LogicalPoint,
    damaged: bool,
) -> BackdropStep {
    step_for(
        table::lookup(pictures, shader_key(item.stable_key@, scene.output@, visual)),
        signature::signature_of(
            backdrop::shader_chunks(
                item,
                backdrop::area_of(item.rect, item.effect, scene.output_geo),
                scene.behind(),
                scene.output_geo,
                origin,
            ),
        ),
        item.effect.always_invalidated,
        damaged,
        item.order,
        item.rect,
        scene.root,
        scene.output_geo.corner(),
    )
}

/// Decides on one effect of the decoration of a window. `visual` tells that it follows the
/// movement of the window, and `origin` is the corner of the visible captured area in pixels.
pub fn shader_backdrop_step(
    scene: &WindowScene,
    pictures: &NameTable<ElementState>,
    item: &ShaderItem,
    visual: bool,
    origin: LogicalPoint,
    damaged: bool,
) -> (step: BackdropStep)
    requires
        scene.fits(item.effect, item.rect),
    ensures
        step == shader_step(*scene, pictures@, *item, visual, origin, damaged),
{
    let key: String = shader_cache_key(item.stable_key, scene.output, visual);
    let area: BackdropArea = backdrop::backdrop_area(item.rect, &item.effect, scene.output_geo);
    let behind: SceneBehind = scene.scene_behind();
    let signature: u64 = backdrop::shader_signature(item, &area, &behind, scene.output_geo, origin);
    match cache::cached_backdrop(
        pictures,
        key.as_str(),
        signature,
        item.effect.always_invalidated,
        damaged,
    ) {
        Some(state) => BackdropStep::Reuse(
            place(item.order, state, item.rect, scene.root, scene.output_geo.location()),
        ),
        None => BackdropStep::Redraw(signature),
    }
}

/// An effect of a decoration that is shown.
#[derive(Clone, Copy, Debug, PartialEq, Eq, Structural)]
pub struct ShownEffect {
    pub element: PlacedBackdrop,
    pub render_as_backdrop: bool,
}

pub open spec fn shown_effect(
    effect: EffectTraits,
    element: Option<PlacedBackdrop>,
) -> Option<ShownEffect> {
    match element {
        Some(element) => Some(ShownEffect { element, render_as_backdrop: stands_behind(effect) }),
        None => None,
    }
}

/// Records what came of an effect of the decoration of a window.
pub fn settle_shader_backdrop(
    scene: &WindowScene,
    pictures: &mut NameTable<ElementState>,
    item: &ShaderItem,
    visual: bool,
    step: BackdropStep,
    reply: EffectReply,
) -> (shown: Option<ShownEffect>)
    requires
        scene.fits(item.effect, item.rect),
    ensures
        final(pictures)@ == kept_after(
            old(pictures)@,
            shader_key(item.stable_key@, scene.output@, visual),
            step,
            reply,
        ),
        shown == shown_effect(
            item.effect,
            element_of(
                *scene,
                old(pictures)@,
                shader_key(item.stable_key@, scene.output@, visual),
                step,
                reply,
                item.order,
                item.rect,
            ),
        ),
{
    let key: String = shader_cache_key(item.stable_key, scene.output, visual);
    match settle(scene, pictures, key.as_str(), step, reply, item.order, item.rect) {
        Some(element) => Some(
            ShownEffect { element, render_as_backdrop: render_as_backdrop(&item.effect) },
        ),
        None => None,
    }
}

/// The effects of a decoration that are drawn from captured pictures, one after the other:
/// the pictures that are kept in the end, and the effects that are shown, in order.
pub open spec fn shader_pass(
    scene: WindowScene,
    pictures: Map<Seq<char>, ElementState>,
    items: Seq<ShaderItem>,
    replies: Seq<EffectReply>,
    prefer_framebuffer: bool,
    visual: bool,
) -> (Map<Seq<char>, ElementState>, Seq<ShownEffect>)
    decreases items.len(),
{
    if items.len() == 0 {
        (pictures, Seq::empty())
    } else {
        let (kept, shown) = shader_pass(
            scene,
            pictures,
            items.drop_last(),
            replies,
            prefer_framebuffer,
            visual,
        );
        let item = items.last();
        let reply = replies[items.len() - 1];
        if item.is_captured(prefer_framebuffer) {
            let key = shader_key(item.stable_key@, scene.output@, visual);
            let step = shader_step(scene, kept, item, visual, reply.origin, reply.damaged);
            let element = element_of(scene, kept, key, step, reply, item.order, item.rect);
            (
                kept_after(kept, key, step, reply),
                shown + slots::optional(shown_effect(item.effect, element)),
            )
        } else {
            (kept, shown)
        }
    }
}

/// The effects of the decoration of a window that are drawn from captured pictures. There is
/// a reply for every effect; those for the other effects are not looked at.
pub fn backdrop_shader_elements_for_window(
    scene: &WindowScene,
    pictures: &mut NameTable<ElementState>,
    items: &[ShaderItem],
    replies: &[EffectReply],
    prefer_framebuffer: bool,
    visual: bool,
) -> (shown: Vec<ShownEffect>)
    requires
        replies@.len() == items@.len(),
        forall|i: int|
            0 <= i < items@.len() && (#[trigger] items@[i]).is_captured(prefer_framebuffer)
                ==> scene.fits(items@[i].effect, items@[i].rect),
    ensures
        (final(pictures)@, shown@) == shader_pass(
            *scene,
            old(pictures)@,
            items@,
            replies@,
            prefer_framebuffer,
            visual,
        ),
{
    let ghost first = pictures@;
    let mut shown: Vec<ShownEffect> = Vec::new();
    let mut index: usize = 0;
    assert(items@.take(0) =~= Seq::<ShaderItem>::empty());
    while index < items.len()
        invariant
            index <= items@.len(),
            replies@.len() == items@.len(),
            forall|i: int|
                0 <= i < items@.len() && (#[trigger] items@[i]).is_captured(prefer_framebuffer)
                    ==> scene.fits(items@[i].effect, items@[i].rect),
            (pictures@, shown@) == shader_pass(
                *scene,
                first,
                items@.take(index as int),
                replies@,
                prefer_framebuffer,
                visual,
            ),
        decreases items@.len() - index,
    {
        assert(items@.take(index + 1).drop_last() =~= items@.take(index as int));
        assert(items@.take(index + 1).last() == items@[index as int]);
        let item: &ShaderItem = &items[index];
        if item.texture_backed && (!prefer_framebuffer
            || !item.effect.supports_framebuffer_backdrop) {
            let reply: EffectReply = replies[index];
            let step: BackdropStep = shader_backdrop_step(
                scene,
                pictures,
                item,
                visual,
                reply.origin,
                reply.damaged,
            );
            match settle_shader_backdrop(scene, pictures, item, visual, step, reply) {
                Some(effect) => {
                    shown.push(effect);
                },
                None => {},
            }
        }
        index += 1;
    }
    assert(items@.take(items@.len() as int) =~= items@);
    shown
}

pub open spec fn protocol_name(index: usize) -> Seq<char> {
    "__protocol_background_effect_"@ + text::decimal(index as int)
}

/// The name of the background effect behind one rectangle of the region that a client
/// asked for.
pub fn protocol_stable_key(index: usize) -> (key: String)
    ensures
        key@ == protocol_name(index),
{
    let mut key: String = "__protocol_background_effect_".to_owned();
    text::append_usize(&mut key, index);
    key
}

/// The name of such an effect when it is drawn from the frame itself.
pub fn protocol_framebuffer_key(index: usize) -> (key: String)
    ensures
        key@ == "__protocol_background_effect_framebuffer_"@ + text::decimal(index as int),
{
    let mut key: String = "__protocol_background_effect_framebuffer_".to_owned();
    text::append_usize(&mut key, index);
    key
}

/// An effect behind one rectangle of a region that is drawn from the frame itself.
pub struct FramebufferEffect {
    /// Its place among the effects of the window.
    pub order: usize,
    pub key: String,
    pub rect: LogicalRect,
}

/// The effects behind the region that the client of a window asked for, when they are drawn
/// from the frame itself: one for each rectangle, in order.
pub fn configured_background_framebuffer_effect_elements_for_window(rects: &[LogicalRect]) -> (effects:
    Vec<FramebufferEffect>)
    ensures
        effects@.len() == rects@.len(),
        forall|i: int|
            0 <= i < effects@.len() ==> (#[trigger] effects@[i]).order == i && effects@[i].rect
                == rects@[i] && effects@[i].key@ == "__protocol_background_effect_framebuffer_"@
                + text::decimal(i),
{
    let mut effects: Vec<FramebufferEffect> = Vec::new();
    let mut index: usize = 0;
    while index < rects.len()
        invariant
            index <= rects@.len(),
            effects@.len() == index,
            forall|i: int|
                0 <= i < effects@.len() ==> (#[trigger] effects@[i]).order == i && effects@[i].rect
                    == rects@[i] && effects@[i].key@
                    == "__protocol_background_effect_framebuffer_"@ + text::decimal(i),
        decreases rects@.len() - index,
    {
        effects.push(
            FramebufferEffect {
                order: index,
                key: protocol_framebuffer_key(index),
                rect: rects[index],
            },
        );
        index += 1;
    }
    effects
}

/// The name of the picture of an effect behind the region that a client asked for.
pub open spec fn protocol_key(index: usize, output: Seq<char>) -> Seq<char> {
    protocol_name(index) + "@"@ + output
}

pub fn output_cache_key(stable_key: &str, output: &str) -> (key: String)
    ensures
        key@ == stable_key@ + "@"@ + output@,
{
    let mut key: String = stable_key.to_owned();
    key.append("@");
    key.append(output);
    key
}

/// How to go on with the background effect behind one rectangle of the region that the
/// client of a window asked for.
pub open spec fn protocol_step(
    scene: WindowScene,
    pictures: Map<Seq<char>, ElementState>,
    index: usize,
    rect: LogicalRect,
    effect: EffectTraits,
    effect_text: Seq<char>,
    damaged: bool,
) -> BackdropStep {
    step_for(
        table::lookup(pictures, protocol_key(index, scene.output@)),
        signature::signature_of(
            backdrop::protocol_chunks(
                protocol_name(index),
                effect,
                effect_text,
                backdrop::area_of(rect, effect, scene.output_geo),
                scene.behind(),
                scene.output_geo,
            ),
        ),
        effect.always_invalidated,
        damaged,
        index,
        rect,
        scene.root,
        scene.output_geo.corner(),
    )
}

/// Decides on the background effect behind one rectangle.
pub fn protocol_backdrop_step(
    scene: &WindowScene,
    pictures: &NameTable<ElementState>,
    index: usize,
    rect: LogicalRect,
    effect: &EffectTraits,
    effect_text: &str,
    damaged: bool,
) -> (step: BackdropStep)
    requires
        scene.fits(*effect, rect),
    ensures
        step == protocol_step(*scene, pictures@, index, rect, *effect, effect_text@, damaged),
{
    let stable_key: String = protocol_stable_key(index);
    let key: String = output_cache_key(stable_key.as_str(), scene.output);
    let area: BackdropArea = backdrop::backdrop_area(rect, effect, scene.output_geo);
    let behind: SceneBehind = scene.scene_behind();
    let signature: u64 = backdrop::protocol_signature(
        stable_key.as_str(),
        effect,
        effect_text,
        &area,
        &behind,
        scene.output_geo,
    );
    match cache::cached_backdrop(
        pictures,
        key.as_str(),
        signature,
        effect.always_invalidated,
        damaged,
    ) {
        Some(state) => BackdropStep::Reuse(
            place(index, state, rect, scene.root, scene.output_geo.location()),
        ),
        None => BackdropStep::Redraw(signature),
    }
}

/// Records what came of the background effect behind one rectangle.
pub fn settle_protocol_backdrop(
    scene: &WindowScene,
    pictures: &mut NameTable<ElementState>,
    index: usize,
    rect: LogicalRect,
    step: BackdropStep,
    reply: EffectReply,
) -> (element: Option<PlacedBackdrop>)
    requires
        rect.fits_from(scene.root),
        rect.fits_from(scene.output_geo.corner()),
    ensures
        final(pictures)@ == kept_after(
            old(pictures)@,
            protocol_key(index, scene.output@),
            step,
            reply,
        ),
        element == element_of(
            *scene,
            old(pictures)@,
            protocol_key(index, scene.output@),
            step,
            reply,
            index,
            rect,
        ),
{
    let stable_key: String = protocol_stable_key(index);
    let key: String = output_cache_key(stable_key.as_str(), scene.output);
    settle(scene, pictures, key.as_str(), step, reply, index, rect)
}

/// The background effects behind the rectangles of a region, one after the other: the
/// pictures that are kept in the end, and the elements that are shown, in order.
pub open spec fn protocol_pass(
    scene: WindowScene,
    pictures: Map<Seq<char>, ElementState>,
    rects: Seq<LogicalRect>,
    effect: EffectTraits,
    effect_text: Seq<char>,
    replies: Seq<EffectReply>,
) -> (Map<Seq<char>, ElementState>, Seq<PlacedBackdrop>)
    decreases rects.len(),
{
    if rects.len() == 0 {
        (pictures, Seq::empty())
    } else {
        let (kept, shown) = protocol_pass(
            scene,
            pictures,
            rects.drop_last(),
            effect,
            effect_text,
            replies,
        );
        let index = (rects.len() - 1) as usize;
        let rect = rects.last();
        let reply = replies[rects.len() - 1];
        let key = protocol_key(index, scene.output@);
        let step = protocol_step(scene, kept, index, rect, effect, effect_text, reply.damaged);
        (
            kept_after(kept, key, step, reply),
            shown + slots::optional(element_of(scene, kept, key, step, reply, index, rect)),
        )
    }
}

/// The background effects behind the region that the client of a window asked for, one for
/// each rectangle.
pub fn configured_background_effect_elements_for_window(
    scene: &WindowScene,
    pictures: &mut NameTable<ElementState>,
    rects: &[LogicalRect],
    effect: &EffectTraits,
    effect_text: &str,
    replies: &[EffectReply],
) -> (shown: Vec<PlacedBackdrop>)
    requires
        replies@.len() == rects@.len(),
        forall|i: int| 0 <= i < rects@.len() ==> scene.fits(*effect, #[trigger] rects@[i]),
    ensures
        (final(pictures)@, shown@) == protocol_pass(
            *scene,
            old(pictures)@,
            rects@,
            *effect,
            effect_text@,
            replies@,
        ),
{
    let ghost first = pictures@;
    let mut shown: Vec<PlacedBackdrop> = Vec::new();
    let mut index: usize = 0;
    assert(rects@.take(0) =~= Seq::<LogicalRect>::empty());
    while index < rects.len()
        invariant
            index <= rects@.len(),
            replies@.len() == rects@.len(),
            forall|i: int| 0 <= i < rects@.len() ==> scene.fits(*effect, #[trigger] rects@[i]),
            (pictures@, shown@) == protocol_pass(
                *scene,
                first,
                rects@.take(index as int),
                *effect,
                effect_text@,
                replies@,
            ),
        decreases rects@.len() - index,
    {
        assert(rects@.take(index + 1).drop_last() =~= rects@.take(index as int));
        assert(rects@.take(index + 1).last() == rects@[index as int]);
        let rect: LogicalRect = rects[index];
        let reply: EffectReply = replies[index];
        let step: BackdropStep = protocol_backdrop_step(
            scene,
            pictures,
            index,
            rect,
            effect,
            effect_text,
            reply.damaged,
        );
        match settle_protocol_backdrop(scene, pictures, index, rect, step, reply) {
            Some(element) => {
                shown.push(element);
            },
            None => {},
        }
        index += 1;
    }
    assert(rects@.take(rects@.len() as int) =~= rects@);
    shown
}

/// After an effect was drawn anew, the next frame shows the same picture if nothing has
/// changed in between.
pub proof fn law_drawn_effect_is_shown_again(
    cache: Map<Seq<char>, ElementState>,
    key: Seq<char>,
    signature: u64,
    fresh_id: u64,
    order: usize,
    effect_rect: LogicalRect,
    root: LogicalPoint,
    output_loc: LogicalPoint,
)
    ensures
        ({
            let state = cache::redrawn_state(table::lookup(cache, key), signature, fresh_id);
            step_for(
                table::lookup(cache.insert(key, state), key),
                signature,
                false,
                false,
                order,
                effect_rect,
                root,
                output_loc,
            ) == BackdropStep::Reuse(placed(order, state, effect_rect, root, output_loc))
        }),
{
}

/// The shown effects are those at the positions `captured`, in the same order.
pub open spec fn lists(
    shown: Seq<ShownEffect>,
    items: Seq<ShaderItem>,
    captured: Seq<usize>,
) -> bool {
    &&& shown.len() == captured.len()
    &&& forall|k: int|
        #![trigger shown[k]]
        #![trigger captured[k]]
        0 <= k < shown.len() ==> {
            &&& captured[k] < items.len()
            &&& shown[k].element.order == items[captured[k] as int].order
            &&& shown[k].render_as_backdrop == stands_behind(items[captured[k] as int].effect)
        }
}

/// Where every picture can be drawn and shown, the list holds every effect of the decoration
/// that is drawn from a captured picture, in the order of the decoration and each with its
/// place there.
pub proof fn law_every_captured_effect_is_listed(
    scene: WindowScene,
    pictures: Map<Seq<char>, ElementState>,
    items: Seq<ShaderItem>,
    replies: Seq<EffectReply>,
    prefer_framebuffer: bool,
    visual: bool,
)
    requires
        items.len() <= usize::MAX,
        replies.len() >= items.len(),
        forall|i: int|
            0 <= i < items.len() ==> (#[trigger] replies[i]).shown && replies[i].drawn is Some,
    ensures
        lists(
            shader_pass(scene, pictures, items, replies, prefer_framebuffer, visual).1,
            items,
            captured_indices(items, prefer_framebuffer),
        ),
    decreases items.len(),
{
    if items.len() > 0 {
        let rest = items.drop_last();
        law_every_captured_effect_is_listed(
            scene,
            pictures,
            rest,
            replies,
            prefer_framebuffer,
            visual,
        );
        let (kept, shown) = shader_pass(scene, pictures, rest, replies, prefer_framebuffer, visual);
        let earlier = captured_indices(rest, prefer_framebuffer);
        assert(lists(shown, rest, earlier));
        let item = items.last();
        let reply = replies[items.len() - 1];
        if item.is_captured(prefer_framebuffer) {
            let key = shader_key(item.stable_key@, scene.output@, visual);
            let step = shader_step(scene, kept, item, visual, reply.origin, reply.damaged);
            let element = element_of(scene, kept, key, step, reply, item.order, item.rect);
            assert(element is Some && element->0.order == item.order);
            let longer = shown + slots::optional(shown_effect(item.effect, element));
            assert(longer.len() == shown.len() + 1);
            assert(lists(longer, items, earlier.push((items.len() - 1) as usize)));
        } else {
            assert(lists(shown, items, earlier));
        }
    }
}

/// Where every picture can be drawn and shown, there is one element for each rectangle, in
/// order.
pub proof fn law_every_rect_has_an_element(
    scene: WindowScene,
    pictures: Map<Seq<char>, ElementState>,
    rects: Seq<LogicalRect>,
    effect: EffectTraits,
    effect_text: Seq<char>,
    replies: Seq<EffectReply>,
)
    requires
        rects.len() <= usize::MAX,
        replies.len() >= rects.len(),
        forall|i: int|
            0 <= i < rects.len() ==> (#[trigger] replies[i]).shown && replies[i].drawn is Some,
    ensures
        ({
            let shown = protocol_pass(scene, pictures, rects, effect, effect_text, replies).1;
            &&& shown.len() == rects.len()
            &&& forall|i: int|
                0 <= i < shown.len() ==> (#[trigger] shown[i]).order == i && shown[i].local_rect
                    == rects[i].seen_from(scene.root)
        }),
    decreases rects.len(),
{
    if rects.len() > 0 {
        law_every_rect_has_an_element(
            scene,
            pictures,
            rects.drop_last(),
            effect,
            effect_text,
            replies,
        );
        assert(replies[rects.len() - 1].shown);
    }
}

/// Where the picture of an effect of a window is drawn, in pixels.
#[derive(Clone, Copy, Debug, PartialEq, Eq, Structural)]
pub struct SampledArea {
    /// Its area on the output.
    pub screen: LogicalRect,
    /// The same area in the captured picture that the effect is applied to.
    pub sample: LogicalRect,
}

pub open spec fn sampled_from(
    root_origin: LogicalPoint,
    geometry: LogicalRect,
    capture_origin: LogicalPoint,
) -> SampledArea {
    SampledArea {
        screen: geometry::rect_of(
            root_origin.x + geometry.x,
            root_origin.y + geometry.y,
            geometry.width as int,
            geometry.height as int,
        ),
        sample: geometry::rect_of(
            root_origin.x + geometry.x - capture_origin.x,
            root_origin.y + geometry.y - capture_origin.y,
            geometry.width as int,
            geometry.height as int,
        ),
    }
}

/// `geometry` is the area of the effect relative to its window, whose corner is at
/// `root_origin`, and `capture_origin` is the corner of the captured picture, all in pixels.
pub fn sampled_area(
    root_origin: LogicalPoint,
    geometry: LogicalRect,
    capture_origin: LogicalPoint,
) -> (area: SampledArea)
    requires
        geometry::fits_i32(root_origin.x + geometry.x),
        geometry::fits_i32(root_origin.y + geometry.y),
        geometry::fits_i32(root_origin.x + geometry.x - capture_origin.x),
        geometry::fits_i32(root_origin.y + geometry.y - capture_origin.y),
    ensures
        area == sampled_from(root_origin, geometry, capture_origin),
{
    let x: i32 = root_origin.x + geometry.x;
    let y: i32 = root_origin.y + geometry.y;
    SampledArea {
        screen: LogicalRect::new(x, y, geometry.width, geometry.height),
        sample: LogicalRect::new(
            x - capture_origin.x,
            y - capture_origin.y,
            geometry.width,
            geometry.height,
        ),
    }
}

fn pipeline_key(prefix: &str, owner: &str, key: &str) -> (name: String)
    ensures
        name@ == prefix@ + owner@ + ":"@ + key@,
{
    let mut name: String = prefix.to_owned();
    name.append(owner);
    name.append(":");
    name.append(key);
    name
}

/// The name of the intermediate pictures of an effect of a decoration; `cache_key` names the
/// picture itself.
pub fn window_backdrop_pipeline_key(window_id: &str, cache_key: &str) -> (key: String)
    ensures
        key@ == "tty:window-backdrop:"@ + window_id@ + ":"@ + cache_key@,
{
    pipeline_key("tty:window-backdrop:", window_id, cache_key)
}

/// The name of the intermediate pictures of an effect that the client of a window asked for.
pub fn protocol_pipeline_key(window_id: &str, cache_key: &str) -> (key: String)
    ensures
        key@ == "tty:protocol-window:"@ + window_id@ + ":"@ + cache_key@,
{
    pipeline_key("tty:protocol-window:", window_id, cache_key)
}

/// What is below a place of a list is what comes after it.
pub proof fn law_below_is_what_comes_after<T>(list: &[T], index: usize, rest: &[T], i: int)
    requires
        call_ensures(below::<T>, (list, index), rest),
    ensures
        index < list@.len() ==> rest@.len() == list@.len() - index - 1,
        index >= list@.len() ==> rest@.len() == 0,
        0 <= i < rest@.len() ==> rest@[i] == list@[index + 1 + i],
{
}

proof fn lemma_captured_indices(items: Seq<ShaderItem>, prefer_framebuffer: bool, i: int)
    requires
        items.len() <= usize::MAX,
    ensures
        forall|k: int|
            0 <= k < captured_indices(items, prefer_framebuffer).len() ==> (
            #[trigger] captured_indices(items, prefer_framebuffer)[k]) < items.len(),
        forall|a: int, b: int|
            0 <= a < b < captured_indices(items, prefer_framebuffer).len() ==> (
            #[trigger] captured_indices(items, prefer_framebuffer)[a]) < (
            #[trigger] captured_indices(items, prefer_framebuffer)[b]),
        0 <= i < items.len() ==> (captured_indices(items, prefer_framebuffer).contains(i as usize)
            <==> items[i].is_captured(prefer_framebuffer)),
    decreases items.len(),
{
    if items.len() > 0 {
        let init = items.drop_last();
        lemma_captured_indices(init, prefer_framebuffer, i);
        let all = captured_indices(items, prefer_framebuffer);
        let rest = captured_indices(init, prefer_framebuffer);
        let last = (items.len() - 1) as usize;
        if items.last().is_captured(prefer_framebuffer) {
            assert(all == rest.push(last));
            assert(all[rest.len() as int] == last);
            if 0 <= i < init.len() {
                assert(items[i] == init[i]);
                if rest.contains(i as usize) {
                    let k = choose|k: int| 0 <= k < rest.len() && rest[k] == i as usize;
                    assert(all[k] == i as usize);
                }
                if all.contains(i as usize) {
                    let k = choose|k: int| 0 <= k < all.len() && all[k] == i as usize;
                    assert(rest[k] == i as usize);
                }
            }
        } else if 0 <= i < init.len() {
            assert(items[i] == init[i]);
        } else if 0 <= i < items.len() && rest.contains(i as usize) {
            let k = choose|k: int| 0 <= k < rest.len() && rest[k] == i as usize;
            assert(rest[k] < init.len());
        }
    }
}

/// An effect is drawn from a captured picture exactly if it is made for it and is not drawn from
/// the frame itself; the places are in order.
pub proof fn law_captured_items(
    items: &[ShaderItem],
    prefer_framebuffer: bool,
    indices: Vec<usize>,
    i: int,
    a: int,
    b: int,
)
    requires
        items@.len() <= usize::MAX,
        call_ensures(captured_items, (items, prefer_framebuffer), indices),
    ensures
        0 <= i < items@.len() ==> (indices@.contains(i as usize) <==> items@[i].texture_backed && (
        !prefer_framebuffer || !items@[i].effect.supports_framebuffer_backdrop)),
        0 <= a < b < indices@.len() ==> indices@[a] < indices@[b],
        0 <= a < indices@.len() ==> indices@[a] < items@.len(),
{
    lemma_captured_indices(items@, prefer_framebuffer, i);
}

/// An effect stands among the backdrops exactly if it shows anything but its own window.
pub proof fn law_effects_that_stand_behind(effect: &EffectTraits, r: bool)
    requires
        call_ensures(render_as_backdrop, (effect,), r),
    ensures
        effect.uses_backdrop ==> r,
        effect.uses_xray ==> r,
        r ==> effect.uses_backdrop || effect.uses_xray,
{
}

/// The damage that an effect of a window sees is that of windows below it and of the layer
/// surfaces below all windows, as far as it shows them; never that of the window itself or of
/// those above it.
pub proof fn law_damage_behind_windows(
    scene: &WindowScene,
    effect: &EffectTraits,
    source: &SourceDamage,
    entries: Vec<OwnedDamageRect>,
    entry: OwnedDamageRect,
)
    requires
        call_ensures(WindowScene::damage_behind, (scene, effect, source), entries),
    ensures
        entries@.contains(entry) <==> {
            ||| effect.uses_backdrop && source.windows@.contains(entry) && exists|k: int|
                scene.index < k < scene.windows@.len() && (
                #[trigger] scene.windows@[k]).decorated is Some && (
                scene.windows@[k].decorated->0).0@ == entry.owner@
            ||| (effect.uses_backdrop || effect.uses_xray) && source.lower_layers@.contains(entry)
                && exists|k: int|
                0 <= k < scene.lower_layers@.len() && text::decimal(
                    (#[trigger] scene.lower_layers@[k]).protocol_id as int,
                ) == entry.owner@
        },
{
    let below = rest_after(scene.windows@, scene.index);
    let ids = window_ids(below);
    let lowers = layer_ids(scene.lower_layers@);
    crate::damage::lemma_damage_is_of_its_owners(ids, source.windows@, entry);
    crate::damage::lemma_layer_damage_is_of_its_owners(lowers, source.lower_layers@, entry);
    crate::damage::lemma_layer_damage_is_of_its_owners(
        Seq::empty(),
        source.upper_layers@,
        entry,
    );
    let from_windows = if effect.uses_backdrop {
        crate::damage::window_damage(ids, source.windows@)
    } else {
        Seq::empty()
    };
    let from_lower = if effect.uses_backdrop || effect.uses_xray {
        crate::damage::layer_damage(lowers, source.lower_layers@)
    } else {
        Seq::empty()
    };
    let from_upper = if effect.uses_backdrop {
        crate::damage::layer_damage(Seq::empty(), source.upper_layers@)
    } else {
        Seq::empty()
    };
    assert(entries@ == from_windows + from_lower + from_upper);
    if from_windows.contains(entry) {
        let i = choose|i: int| 0 <= i < from_windows.len() && from_windows[i] == entry;
        assert(entries@[i] == entry);
    }
    if from_lower.contains(entry) {
        let i = choose|i: int| 0 <= i < from_lower.len() && from_lower[i] == entry;
        assert(entries@[from_windows.len() + i] == entry);
    }
    if entries@.contains(entry) {
        let i = choose|i: int| 0 <= i < entries@.len() && entries@[i] == entry;
        if i < from_windows.len() {
            assert(from_windows[i] == entry);
        } else if i < from_windows.len() + from_lower.len() {
            assert(from_lower[i - from_windows.len()] == entry);
        } else {
            assert(from_upper[i - from_windows.len() - from_lower.len()] == entry);
        }
    }
    if crate::damage::is_window_owner(ids, entry.owner@) {
        let i = choose|i: int|
            0 <= i < ids.len() && (#[trigger] ids[i]) is Some && ids[i]->0@ == entry.owner@;
        assert(below[i] == scene.windows@[scene.index + 1 + i]);
        assert((scene.windows@[scene.index + 1 + i].decorated->0).0@ == entry.owner@);
    }
    if exists|k: int|
        scene.index < k < scene.windows@.len() && (#[trigger] scene.windows@[k]).decorated is Some
            && (scene.windows@[k].decorated->0).0@ == entry.owner@ {
        let k = choose|k: int|
            scene.index < k < scene.windows@.len() && (
            #[trigger] scene.windows@[k]).decorated is Some && (scene.windows@[k].decorated->0).0@
                == entry.owner@;
        assert(below[k - scene.index - 1] == scene.windows@[k]);
        assert(ids[k - scene.index - 1] is Some);
    }
    if crate::damage::is_layer_owner(lowers, entry.owner@) {
        let i = choose|i: int|
            0 <= i < lowers.len() && text::decimal((#[trigger] lowers[i]) as int) == entry.owner@;
        assert(text::decimal(scene.lower_layers@[i].protocol_id as int) == entry.owner@);
    }
    if exists|k: int|
        0 <= k < scene.lower_layers@.len() && text::decimal(
            (#[trigger] scene.lower_layers@[k]).protocol_id as int,
        ) == entry.owner@ {
        let k = choose|k: int|
            0 <= k < scene.lower_layers@.len() && text::decimal(
                (#[trigger] scene.lower_layers@[k]).protocol_id as int,
            ) == entry.owner@;
        assert(text::decimal(lowers[k] as int) == entry.owner@);
    }
}

/// A picture of an effect that was drawn anew is shown where the effect is, relative to its
/// window and relative to its output, and the renderer sees that it has changed.
pub proof fn law_drawn_backdrops_are_placed(
    cache: &mut NameTable<ElementState>,
    key: &str,
    signature: u64,
    fresh_id: u64,
    order: usize,
    effect_rect: LogicalRect,
    root: LogicalPoint,
    output_loc: LogicalPoint,
    element: PlacedBackdrop,
    other: Seq<char>,
)
    requires
        effect_rect.fits_from(root),
        effect_rect.fits_from(output_loc),
        call_ensures(
            backdrop_drawn_for_window,
            (cache, key, signature, fresh_id, order, effect_rect, root, output_loc),
            element,
        ),
    ensures
        element.order == order,
        element.id == fresh_id,
        element.local_rect.x + root.x == effect_rect.x,
        element.local_rect.y + root.y == effect_rect.y,
        element.sample_rect.x + output_loc.x == effect_rect.x,
        element.sample_rect.y + output_loc.y == effect_rect.y,
        element.local_rect.width == effect_rect.width,
        element.local_rect.height == effect_rect.height,
        element.sample_rect.width == effect_rect.width,
        element.sample_rect.height == effect_rect.height,
        old(cache)@.contains_key(key@) ==> element.commit != old(cache)@[key@].commit,
        final(cache)@.contains_key(key@),
        final(cache)@[key@].signature == signature,
        final(cache)@[key@].id == element.id,
        final(cache)@[key@].commit == element.commit,
        other != key@ ==> final(cache)@.contains_key(other) == old(cache)@.contains_key(other)
            && final(cache)@[other] == old(cache)@[other],
{
}

/// Whether the picture of an effect of a decoration is used again: exactly if it was drawn from
/// the same, nothing under it is damaged and the effect does not ask otherwise. It is then shown
/// where the effect is now.
pub proof fn law_shader_backdrop_steps(
    scene: &WindowScene,
    pictures: &NameTable<ElementState>,
    item: &ShaderItem,
    visual: bool,
    origin: LogicalPoint,
    damaged: bool,
    step: BackdropStep,
)
    requires
        scene.fits(item.effect, item.rect),
        call_ensures(shader_backdrop_step, (scene, pictures, item, visual, origin, damaged), step),
    ensures
        ({
            let key = shader_key(item.stable_key@, scene.output@, visual);
            let wanted = signature::signature_of(
                backdrop::shader_chunks(
                    *item,
                    backdrop::area_of(item.rect, item.effect, scene.output_geo),
                    scene.behind(),
                    scene.output_geo,
                    origin,
                ),
            );
            &&& damaged ==> step == BackdropStep::Redraw(wanted)
            &&& item.effect.always_invalidated ==> step == BackdropStep::Redraw(wanted)
            &&& !pictures@.contains_key(key) ==> step == BackdropStep::Redraw(wanted)
            &&& pictures@.contains_key(key) && pictures@[key].signature != wanted ==> step
                == BackdropStep::Redraw(wanted)
            &&& !damaged && !item.effect.always_invalidated && pictures@.contains_key(key)
                && pictures@[key].signature == wanted ==> {
                &&& step is Reuse
                &&& step->Reuse_0.id == pictures@[key].id
                &&& step->Reuse_0.commit == pictures@[key].commit
                &&& step->Reuse_0.order == item.order
                &&& step->Reuse_0.local_rect.x + scene.root.x == item.rect.x
                &&& step->Reuse_0.local_rect.y + scene.root.y == item.rect.y
                &&& step->Reuse_0.sample_rect.x + scene.output_geo.x == item.rect.x
                &&& step->Reuse_0.sample_rect.y + scene.output_geo.y == item.rect.y
            }
        }),
{
}

/// Two effects of decorations that are drawn under one signature are drawn from data that tells
/// apart where they are, what they are, and the windows below them.
pub proof fn law_redrawn_shader_backdrops_are_told_apart(
    a_scene: &WindowScene,
    b_scene: &WindowScene,
    a_pictures: &NameTable<ElementState>,
    b_pictures: &NameTable<ElementState>,
    a: &ShaderItem,
    b: &ShaderItem,
    visual: bool,
    a_origin: LogicalPoint,
    b_origin: LogicalPoint,
    a_step: BackdropStep,
    b_step: BackdropStep,
)
    requires
        call_ensures(
            shader_backdrop_step,
            (a_scene, a_pictures, a, visual, a_origin, true),
            a_step,
        ),
        call_ensures(
            shader_backdrop_step,
            (b_scene, b_pictures, b, visual, b_origin, true),
            b_step,
        ),
    ensures
        exists|x: Seq<Seq<u8>>, y: Seq<Seq<u8>>|
            a_step == BackdropStep::Redraw(#[trigger] signature::signature_of(x)) && b_step
                == BackdropStep::Redraw(#[trigger] signature::signature_of(y)) && (x == y ==> {
                &&& a.stable_key@ == b.stable_key@
                &&& a.rect == b.rect
                &&& a_scene.output_geo == b_scene.output_geo
                &&& a.clip_radius == b.clip_radius
                &&& a.effect_text@ == b.effect_text@
                &&& a_origin == b_origin
                &&& a.effect.uses_backdrop || a.effect.uses_xray ==> a_scene.lower_generation
                    == b_scene.lower_generation
                &&& a.effect.uses_backdrop && b.effect.uses_backdrop && a_scene.index
                    < a_scene.windows@.len() && b_scene.index < b_scene.windows@.len()
                    ==> backdrop::windows_are_among(
                    a_scene.windows@.skip(a_scene.index + 1),
                    a.rect,
                    b_scene.windows@.skip(b_scene.index + 1),
                )
                &&& a.effect.uses_backdrop && b.effect.uses_backdrop ==> backdrop::layers_are_among(
                    a_scene.lower_layers@,
                    a_scene.output_loc,
                    a.rect,
                    b_scene.lower_layers@,
                    b_scene.output_loc,
                )
            }),
{
    let a_area = backdrop::area_of(a.rect, a.effect, a_scene.output_geo);
    let b_area = backdrop::area_of(b.rect, b.effect, b_scene.output_geo);
    let x = backdrop::shader_chunks(
        *a,
        a_area,
        a_scene.behind(),
        a_scene.output_geo,
        a_origin,
    );
    let y = backdrop::shader_chunks(
        *b,
        b_area,
        b_scene.behind(),
        b_scene.output_geo,
        b_origin,
    );
    if x == y {
        backdrop::law_shader_chunks_tell_effects_apart(
            *a,
            a_area,
            a_scene.behind(),
            a_scene.output_geo,
            a_origin,
            *b,
            b_area,
            b_scene.behind(),
            b_scene.output_geo,
            b_origin,
        );
        if a_scene.index < a_scene.windows@.len() && b_scene.index < b_scene.windows@.len() {
            assert(a_scene.windows@.skip(a_scene.index + 1) =~= rest_after(
                a_scene.windows@,
                a_scene.index,
            ));
            assert(b_scene.windows@.skip(b_scene.index + 1) =~= rest_after(
                b_scene.windows@,
                b_scene.index,
            ));
        }
    }
    assert(a_step == BackdropStep::Redraw(signature::signature_of(x)));
    assert(b_step == BackdropStep::Redraw(signature::signature_of(y)));
}

/// What came of an effect of a decoration: it is shown if its element can be built and there is
/// a picture, which is that drawn last or a new one. Only a picture that was drawn anew is
/// recorded, and other pictures are not touched.
pub proof fn law_settled_shader_backdrops(
    scene: &WindowScene,
    pictures: &mut NameTable<ElementState>,
    item: &ShaderItem,
    visual: bool,
    step: BackdropStep,
    reply: EffectReply,
    shown: Option<ShownEffect>,
    other: Seq<char>,
)
    requires
        scene.fits(item.effect, item.rect),
        call_ensures(
            settle_shader_backdrop,
            (scene, pictures, item, visual, step, reply),
            shown,
        ),
    ensures
        ({
            let key = shader_key(item.stable_key@, scene.output@, visual);
            &&& shown is Some <==> reply.shown && (step is Reuse || reply.drawn is Some)
            &&& shown is Some ==> shown->0.render_as_backdrop == (item.effect.uses_backdrop
                || item.effect.uses_xray)
            &&& shown is Some && step is Reuse ==> shown->0.element == step->Reuse_0
            &&& shown is Some && step is Redraw ==> {
                &&& Some(shown->0.element.id) == reply.drawn
                &&& shown->0.element.order == item.order
                &&& shown->0.element.local_rect.x + scene.root.x == item.rect.x
                &&& shown->0.element.local_rect.y + scene.root.y == item.rect.y
                &&& shown->0.element.sample_rect.x + scene.output_geo.x == item.rect.x
                &&& shown->0.element.sample_rect.y + scene.output_geo.y == item.rect.y
                &&& shown->0.element.commit == final(pictures)@[key].commit
            }
            &&& step is Reuse || reply.drawn is None ==> final(pictures)@ == old(pictures)@
            &&& step is Redraw && reply.drawn is Some ==> final(pictures)@.contains_key(key)
                && final(pictures)@[key].signature == step->Redraw_0 && Some(
                final(pictures)@[key].id,
            ) == reply.drawn
            &&& other != key ==> final(pictures)@.contains_key(other) == old(
                pictures)@.contains_key(other) && final(pictures)@[other] == old(pictures)@[other]
        }),
{
}

/// Effects of a decoration follow each other: one more comes after those before it, and it shows
/// only if it is drawn from a captured picture and its picture can be had and shown. One that is
/// not drawn so changes nothing.
pub proof fn law_shader_effects_follow_each_other(
    scene: &WindowScene,
    pictures: &mut NameTable<ElementState>,
    longer_pictures: &mut NameTable<ElementState>,
    items: &[ShaderItem],
    longer: &[ShaderItem],
    item: ShaderItem,
    replies: &[EffectReply],
    longer_replies: &[EffectReply],
    reply: EffectReply,
    prefer_framebuffer: bool,
    visual: bool,
    shown: Vec<ShownEffect>,
    longer_shown: Vec<ShownEffect>,
)
    requires
        call_ensures(
            backdrop_shader_elements_for_window,
            (scene, pictures, items, replies, prefer_framebuffer, visual),
            shown,
        ),
        call_ensures(
            backdrop_shader_elements_for_window,
            (scene, longer_pictures, longer, longer_replies, prefer_framebuffer, visual),
            longer_shown,
        ),
        longer@ == items@.push(item),
        replies@.len() == items@.len(),
        longer_replies@ == replies@.push(reply),
        old(pictures)@ == old(longer_pictures)@,
    ensures
        items@.len() == 0 ==> shown@.len() == 0 && final(pictures)@ == old(pictures)@,
        !(item.texture_backed && (!prefer_framebuffer
            || !item.effect.supports_framebuffer_backdrop)) ==> longer_shown@ == shown@ && final(
            longer_pictures)@ == final(pictures)@,
        longer_shown@.len() >= shown@.len(),
        longer_shown@.take(shown@.len() as int) == shown@,
        longer_shown@.len() <= shown@.len() + 1,
        longer_shown@.len() == shown@.len() + 1 ==> {
            let last = longer_shown@[shown@.len() as int];
            &&& reply.shown
            &&& last.element.order == item.order
            &&& last.element.local_rect == item.rect.seen_from(scene.root)
            &&& last.render_as_backdrop == (item.effect.uses_backdrop || item.effect.uses_xray)
        },
        item.texture_backed && !item.effect.supports_framebuffer_backdrop && reply.shown
            && reply.drawn is Some ==> longer_shown@.len() == shown@.len() + 1,
        item.texture_backed && !prefer_framebuffer && reply.shown && reply.drawn is Some
            ==> longer_shown@.len() == shown@.len() + 1,
        !reply.shown ==> longer_shown@ == shown@,
{
    lemma_shader_pass_prefix(
        *scene,
        old(pictures)@,
        items@,
        replies@,
        longer_replies@,
        prefer_framebuffer,
        visual,
    );
    assert(longer@.drop_last() =~= items@);
    assert(longer_shown@.take(shown@.len() as int) =~= shown@);
}

proof fn lemma_shader_pass_prefix(
    scene: WindowScene,
    pictures: Map<Seq<char>, ElementState>,
    items: Seq<ShaderItem>,
    a: Seq<EffectReply>,
    b: Seq<EffectReply>,
    prefer_framebuffer: bool,
    visual: bool,
)
    requires
        forall|i: int| 0 <= i < items.len() ==> #[trigger] a[i] == b[i],
    ensures
        shader_pass(scene, pictures, items, a, prefer_framebuffer, visual) == shader_pass(
            scene,
            pictures,
            items,
            b,
            prefer_framebuffer,
            visual,
        ),
    decreases items.len(),
{
    if items.len() > 0 {
        lemma_shader_pass_prefix(
            scene,
            pictures,
            items.drop_last(),
            a,
            b,
            prefer_framebuffer,
            visual,
        );
        assert(a[items.len() - 1] == b[items.len() - 1]);
    }
}

/// Whether the picture of a background effect that a client asked for is used again: exactly if
/// it was drawn from the same, nothing under it is damaged and the effect does not ask otherwise.
pub proof fn law_protocol_backdrop_steps(
    scene: &WindowScene,
    pictures: &NameTable<ElementState>,
    index: usize,
    rect: LogicalRect,
    effect: &EffectTraits,
    effect_text: &str,
    damaged: bool,
    step: BackdropStep,
)
    requires
        scene.fits(*effect, rect),
        call_ensures(
            protocol_backdrop_step,
            (scene, pictures, index, rect, effect, effect_text, damaged),
            step,
        ),
    ensures
        ({
            let key = protocol_key(index, scene.output@);
            let wanted = signature::signature_of(
                backdrop::protocol_chunks(
                    protocol_name(index),
                    *effect,
                    effect_text@,
                    backdrop::area_of(rect, *effect, scene.output_geo),
                    scene.behind(),
                    scene.output_geo,
                ),
            );
            &&& damaged || effect.always_invalidated || !pictures@.contains_key(key)
                || pictures@[key].signature != wanted ==> step == BackdropStep::Redraw(wanted)
            &&& !damaged && !effect.always_invalidated && pictures@.contains_key(key)
                && pictures@[key].signature == wanted ==> {
                &&& step is Reuse
                &&& step->Reuse_0.id == pictures@[key].id
                &&& step->Reuse_0.commit == pictures@[key].commit
                &&& step->Reuse_0.order == index
                &&& step->Reuse_0.local_rect.x + scene.root.x == rect.x
                &&& step->Reuse_0.local_rect.y + scene.root.y == rect.y
                &&& step->Reuse_0.sample_rect.x + scene.output_geo.x == rect.x
                &&& step->Reuse_0.sample_rect.y + scene.output_geo.y == rect.y
            }
        }),
{
}

/// What came of a background effect that a client asked for.
pub proof fn law_settled_protocol_backdrops(
    scene: &WindowScene,
    pictures: &mut NameTable<ElementState>,
    index: usize,
    rect: LogicalRect,
    step: BackdropStep,
    reply: EffectReply,
    element: Option<PlacedBackdrop>,
    other: Seq<char>,
)
    requires
        rect.fits_from(scene.root),
        rect.fits_from(scene.output_geo.corner()),
        call_ensures(settle_protocol_backdrop, (scene, pictures, index, rect, step, reply), element),
    ensures
        ({
            let key = protocol_key(index, scene.output@);
            &&& element is Some <==> reply.shown && (step is Reuse || reply.drawn is Some)
            &&& element is Some && step is Reuse ==> element->0 == step->Reuse_0
            &&& element is Some && step is Redraw ==> {
                &&& Some(element->0.id) == reply.drawn
                &&& element->0.order == index
                &&& element->0.local_rect.x + scene.root.x == rect.x
                &&& element->0.local_rect.y + scene.root.y == rect.y
                &&& element->0.sample_rect.x + scene.output_geo.x == rect.x
                &&& element->0.sample_rect.y + scene.output_geo.y == rect.y
            }
            &&& step is Reuse || reply.drawn is None ==> final(pictures)@ == old(pictures)@
            &&& step is Redraw && reply.drawn is Some ==> final(pictures)@.contains_key(key)
                && final(pictures)@[key].signature == step->Redraw_0
            &&& other != key ==> final(pictures)@.contains_key(other) == old(
                pictures)@.contains_key(other) && final(pictures)@[other] == old(pictures)@[other]
        }),
{
}

proof fn lemma_protocol_pass_prefix(
    scene: WindowScene,
    pictures: Map<Seq<char>, ElementState>,
    rects: Seq<LogicalRect>,
    effect: EffectTraits,
    effect_text: Seq<char>,
    a: Seq<EffectReply>,
    b: Seq<EffectReply>,
)
    requires
        forall|i: int| 0 <= i < rects.len() ==> #[trigger] a[i] == b[i],
    ensures
        protocol_pass(scene, pictures, rects, effect, effect_text, a) == protocol_pass(
            scene,
            pictures,
            rects,
            effect,
            effect_text,
            b,
        ),
    decreases rects.len(),
{
    if rects.len() > 0 {
        lemma_protocol_pass_prefix(
            scene,
            pictures,
            rects.drop_last(),
            effect,
            effect_text,
            a,
            b,
        );
        assert(a[rects.len() - 1] == b[rects.len() - 1]);
    }
}

/// The background effects behind a region follow the rectangles of the region: one more comes
/// after those before it, at its rectangle, if its picture can be had and shown.
pub proof fn law_protocol_effects_follow_the_region(
    scene: &WindowScene,
    pictures: &mut NameTable<ElementState>,
    longer_pictures: &mut NameTable<ElementState>,
    rects: &[LogicalRect],
    longer: &[LogicalRect],
    rect: LogicalRect,
    effect: &EffectTraits,
    effect_text: &str,
    replies: &[EffectReply],
    longer_replies: &[EffectReply],
    reply: EffectReply,
    shown: Vec<PlacedBackdrop>,
    longer_shown: Vec<PlacedBackdrop>,
)
    requires
        call_ensures(
            configured_background_effect_elements_for_window,
            (scene, pictures, rects, effect, effect_text, replies),
            shown,
        ),
        call_ensures(
            configured_background_effect_elements_for_window,
            (scene, longer_pictures, longer, effect, effect_text, longer_replies),
            longer_shown,
        ),
        longer@ == rects@.push(rect),
        rects@.len() < usize::MAX,
        replies@.len() == rects@.len(),
        longer_replies@ == replies@.push(reply),
        old(pictures)@ == old(longer_pictures)@,
    ensures
        rects@.len() == 0 ==> shown@.len() == 0 && final(pictures)@ == old(pictures)@,
        longer_shown@.len() >= shown@.len(),
        longer_shown@.take(shown@.len() as int) == shown@,
        longer_shown@.len() <= shown@.len() + 1,
        !reply.shown ==> longer_shown@ == shown@,
        reply.shown && reply.drawn is Some ==> longer_shown@.len() == shown@.len() + 1,
        longer_shown@.len() == shown@.len() + 1 ==> {
            let last = longer_shown@[shown@.len() as int];
            &&& reply.shown
            &&& last.order == rects@.len()
            &&& last.local_rect == rect.seen_from(scene.root)
        },
{
    lemma_protocol_pass_prefix(
        *scene,
        old(pictures)@,
        rects@,
        *effect,
        effect_text@,
        replies@,
        longer_replies@,
    );
    assert(longer@.drop_last() =~= rects@);
    assert(longer_shown@.take(shown@.len() as int) =~= shown@);
}

/// Effects behind a region that are drawn from the frame itself: one for each rectangle, in
/// order, each under a name of its own.
pub proof fn law_framebuffer_effects_follow_the_region(
    rects: &[LogicalRect],
    effects: Vec<FramebufferEffect>,
    i: int,
    j: int,
)
    requires
        call_ensures(
            configured_background_framebuffer_effect_elements_for_window,
            (rects,),
            effects,
        ),
    ensures
        effects@.len() == rects@.len(),
        0 <= i < rects@.len() ==> effects@[i].rect == rects@[i] && effects@[i].order == i,
        0 <= i < rects@.len() && 0 <= j < rects@.len() && effects@[i].key@ == effects@[j].key@
            ==> i == j,
{
    if 0 <= i < rects@.len() && 0 <= j < rects@.len() && effects@[i].key@ == effects@[j].key@ {
        let prefix = "__protocol_background_effect_framebuffer_"@;
        assert(effects@[i].key@.skip(prefix.len() as int) =~= text::decimal(i));
        assert(effects@[j].key@.skip(prefix.len() as int) =~= text::decimal(j));
        text::law_decimal_is_injective(i, j);
    }
}

/// The area of an effect in pixels is where its window is plus where it is in the window; in
/// the captured picture the same area starts from the corner of the picture.
pub proof fn law_sampled_areas(
    root_origin: LogicalPoint,
    geometry: LogicalRect,
    capture_origin: LogicalPoint,
    area: SampledArea,
)
    requires
        geometry::fits_i32(root_origin.x + geometry.x),
        geometry::fits_i32(root_origin.y + geometry.y),
        geometry::fits_i32(root_origin.x + geometry.x - capture_origin.x),
        geometry::fits_i32(root_origin.y + geometry.y - capture_origin.y),
        call_ensures(sampled_area, (root_origin, geometry, capture_origin), area),
    ensures
        area.screen.x == root_origin.x + geometry.x,
        area.screen.y == root_origin.y + geometry.y,
        area.sample.x + capture_origin.x == area.screen.x,
        area.sample.y + capture_origin.y == area.screen.y,
        area.screen.width == geometry.width,
        area.screen.height == geometry.height,
        area.sample.width == geometry.width,
        area.sample.height == geometry.height,
{
}

/// The pictures of effects of decorations are told apart by the effect, by the output, and by
/// whether they follow the movement of the window.
pub proof fn law_shader_keys_are_told_apart(
    a: &str,
    b: &str,
    output: &str,
    other_output: &str,
    visual: bool,
    key: String,
    of_other: String,
    on_other: String,
    unmoved: String,
)
    requires
        call_ensures(shader_cache_key, (a, output, visual), key),
        call_ensures(shader_cache_key, (b, output, visual), of_other),
        call_ensures(shader_cache_key, (a, other_output, visual), on_other),
        call_ensures(shader_cache_key, (a, output, !visual), unmoved),
    ensures
        key@ == of_other@ <==> a@ == b@,
        key@ == on_other@ <==> output@ == other_output@,
        key@ != unmoved@,
{
    reveal_strlit("visual");
    reveal_strlit("raw");
    reveal_strlit("@");
    let kind = if visual {
        "visual"@
    } else {
        "raw"@
    };
    let tail = "@"@ + output@ + "@"@ + kind;
    assert(key@ =~= a@ + tail);
    assert(of_other@ =~= b@ + tail);
    text::law_same_endings(tail, a@, b@);
    let head = a@ + "@"@;
    let end = "@"@ + kind;
    assert(key@ =~= head + (output@ + end));
    assert(on_other@ =~= head + (other_output@ + end));
    text::law_same_beginnings(head, output@ + end, other_output@ + end);
    text::law_same_endings(end, output@, other_output@);
    assert(key@.len() != unmoved@.len());
}

/// The pictures of effects behind a region are told apart by their place in the region and by the
/// output.
pub proof fn law_protocol_keys_are_told_apart(
    a: usize,
    b: usize,
    a_key: String,
    b_key: String,
    a_frame: String,
    b_frame: String,
    stable: &str,
    other_stable: &str,
    output: &str,
    other_output: &str,
    cached: String,
    of_other: String,
    on_other: String,
)
    requires
        call_ensures(protocol_stable_key, (a,), a_key),
        call_ensures(protocol_stable_key, (b,), b_key),
        call_ensures(protocol_framebuffer_key, (a,), a_frame),
        call_ensures(protocol_framebuffer_key, (b,), b_frame),
        call_ensures(output_cache_key, (stable, output), cached),
        call_ensures(output_cache_key, (other_stable, output), of_other),
        call_ensures(output_cache_key, (stable, other_output), on_other),
    ensures
        a_key@ == b_key@ <==> a == b,
        a_frame@ == b_frame@ <==> a == b,
        cached@ == of_other@ <==> stable@ == other_stable@,
        cached@ == on_other@ <==> output@ == other_output@,
{
    text::law_same_beginnings(
        "__protocol_background_effect_"@,
        text::decimal(a as int),
        text::decimal(b as int),
    );
    text::law_same_beginnings(
        "__protocol_background_effect_framebuffer_"@,
        text::decimal(a as int),
        text::decimal(b as int),
    );
    if text::decimal(a as int) == text::decimal(b as int) {
        text::law_decimal_is_injective(a as int, b as int);
    }
    let tail = "@"@ + output@;
    assert(cached@ =~= stable@ + tail);
    assert(of_other@ =~= other_stable@ + tail);
    text::law_same_endings(tail, stable@, other_stable@);
    text::law_same_beginnings(stable@ + "@"@, output@, other_output@);
}

/// Intermediate pictures of effects of windows are told apart by the window and by the picture.
pub proof fn law_window_pipeline_keys_are_told_apart(
    a: &str,
    b: &str,
    key: &str,
    other_key: &str,
    shader: String,
    shader_of_other: String,
    shader_other_key: String,
    protocol: String,
    protocol_of_other: String,
    protocol_other_key: String,
)
    requires
        call_ensures(window_backdrop_pipeline_key, (a, key), shader),
        call_ensures(window_backdrop_pipeline_key, (b, key), shader_of_other),
        call_ensures(window_backdrop_pipeline_key, (a, other_key), shader_other_key),
        call_ensures(protocol_pipeline_key, (a, key), protocol),
        call_ensures(protocol_pipeline_key, (b, key), protocol_of_other),
        call_ensures(protocol_pipeline_key, (a, other_key), protocol_other_key),
    ensures
        shader@ == shader_of_other@ <==> a@ == b@,
        shader@ == shader_other_key@ <==> key@ == other_key@,
        protocol@ == protocol_of_other@ <==> a@ == b@,
        protocol@ == protocol_other_key@ <==> key@ == other_key@,
{
    let tail = ":"@ + key@;
    let p = "tty:window-backdrop:"@;
    let q = "tty:protocol-window:"@;
    assert(shader@ =~= p + (a@ + tail));
    assert(shader_of_other@ =~= p + (b@ + tail));
    text::law_same_beginnings(p, a@ + tail, b@ + tail);
    assert(protocol@ =~= q + (a@ + tail));
    assert(protocol_of_other@ =~= q + (b@ + tail));
    text::law_same_beginnings(q, a@ + tail, b@ + tail);
    text::law_same_endings(tail, a@, b@);
    text::law_same_beginnings(p + a@ + ":"@, key@, other_key@);
    text::law_same_beginnings(q + a@ + ":"@, key@, other_key@);
}

/// Two background effects that clients asked for and that are drawn under one signature are drawn
/// from data that tells apart where they are, what they are, and the windows below them.
pub proof fn law_redrawn_protocol_backdrops_are_told_apart(
    a_scene: &WindowScene,
    b_scene: &WindowScene,
    a_pictures: &NameTable<ElementState>,
    b_pictures: &NameTable<ElementState>,
    a_index: usize,
    b_index: usize,
    a: LogicalRect,
    b: LogicalRect,
    a_effect: &EffectTraits,
    b_effect: &EffectTraits,
    a_text: &str,
    b_text: &str,
    a_step: BackdropStep,
    b_step: BackdropStep,
)
    requires
        call_ensures(
            protocol_backdrop_step,
            (a_scene, a_pictures, a_index, a, a_effect, a_text, true),
            a_step,
        ),
        call_ensures(
            protocol_backdrop_step,
            (b_scene, b_pictures, b_index, b, b_effect, b_text, true),
            b_step,
        ),
    ensures
        exists|x: Seq<Seq<u8>>, y: Seq<Seq<u8>>|
            a_step == BackdropStep::Redraw(#[trigger] signature::signature_of(x)) && b_step
                == BackdropStep::Redraw(#[trigger] signature::signature_of(y)) && (x == y ==> {
                &&& a_index == b_index
                &&& a == b
                &&& a_scene.output_geo == b_scene.output_geo
                &&& a_text@ == b_text@
                &&& a_effect.uses_backdrop || a_effect.uses_xray ==> a_scene.lower_generation
                    == b_scene.lower_generation
                &&& a_effect.uses_backdrop && b_effect.uses_backdrop && a_scene.index
                    < a_scene.windows@.len() && b_scene.index < b_scene.windows@.len()
                    ==> backdrop::windows_are_among(
                    a_scene.windows@.skip(a_scene.index + 1),
                    a,
                    b_scene.windows@.skip(b_scene.index + 1),
                )
                &&& a_effect.uses_backdrop && b_effect.uses_backdrop ==> backdrop::layers_are_among(
                    a_scene.lower_layers@,
                    a_scene.output_loc,
                    a,
                    b_scene.lower_layers@,
                    b_scene.output_loc,
                )
            }),
{
    let a_area = backdrop::area_of(a, *a_effect, a_scene.output_geo);
    let b_area = backdrop::area_of(b, *b_effect, b_scene.output_geo);
    let x = backdrop::protocol_chunks(
        protocol_name(a_index),
        *a_effect,
        a_text@,
        a_area,
        a_scene.behind(),
        a_scene.output_geo,
    );
    let y = backdrop::protocol_chunks(
        protocol_name(b_index),
        *b_effect,
        b_text@,
        b_area,
        b_scene.behind(),
        b_scene.output_geo,
    );
    if x == y {
        backdrop::law_protocol_chunks_tell_effects_apart(
            protocol_name(a_index),
            *a_effect,
            a_text@,
            a_area,
            a_scene.behind(),
            a_scene.output_geo,
            protocol_name(b_index),
            *b_effect,
            b_text@,
            b_area,
            b_scene.behind(),
            b_scene.output_geo,
        );
        text::law_same_beginnings(
            "__protocol_background_effect_"@,
            text::decimal(a_index as int),
            text::decimal(b_index as int),
        );
        text::law_decimal_is_injective(a_index as int, b_index as int);
        if a_scene.index < a_scene.windows@.len() && b_scene.index < b_scene.windows@.len() {
            assert(a_scene.windows@.skip(a_scene.index + 1) =~= rest_after(
                a_scene.windows@,
                a_scene.index,
            ));
            assert(b_scene.windows@.skip(b_scene.index + 1) =~= rest_after(
                b_scene.windows@,
                b_scene.index,
            ));
        }
    }
    assert(a_step == BackdropStep::Redraw(signature::signature_of(x)));
    assert(b_step == BackdropStep::Redraw(signature::signature_of(y)));
}

} // verus!
